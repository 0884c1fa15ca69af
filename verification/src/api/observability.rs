//! What is learnt of each request: who called, with what, and how it went.
use vstd::prelude::*;

use crate::api::analytics::{AnalyticsClient, AnalyticsEvent};
use crate::json::{no_facts, Fact, Property};
use crate::text::{
    after_first, before_first, contains, find_first_of, first_of, has_prefix,
    has_prefix_folded, lemma_first_of_bounds, occurs_in, same, split_once, starts_with,
    starts_with_ignore_ascii_case, text_of, trim, trimmed,
};

verus! {

/// Distinct id used for unauthenticated traffic. Events under it are flagged so
/// that no person profile is built from them.
pub const ANONYMOUS_DISTINCT_ID: &'static str = "babamul-anonymous";

/// Non-identifying facts about the caller, taken from request headers.
#[derive(Debug)]
pub struct ClientInfo {
    pub client: Option<String>,
    pub client_version: Option<String>,
    pub python_version: Option<String>,
    pub os: Option<String>,
    pub auth_method: &'static str,
}

/// What a `User-Agent` says of the caller.
#[verifier::ext_equal]
pub struct Caller {
    pub client: Option<Seq<char>>,
    pub client_version: Option<Seq<char>>,
    pub python_version: Option<Seq<char>>,
    pub os: Option<Seq<char>>,
}

impl ClientInfo {
    /// The facts that the `User-Agent` gave.
    pub open spec fn caller(self) -> Caller {
        Caller {
            client: text_of(self.client),
            client_version: text_of(self.client_version),
            python_version: text_of(self.python_version),
            os: text_of(self.os),
        }
    }
}

/// A caller of which nothing is known.
pub open spec fn unknown_caller() -> Caller {
    Caller { client: None, client_version: None, python_version: None, os: None }
}

/// The product token of a trimmed `User-Agent`: everything up to the first space
/// or opening parenthesis.
pub open spec fn product_token(user_agent: Seq<char>) -> Seq<char> {
    trimmed(before_first(user_agent, "( "@))
}

/// The name in a product token.
pub open spec fn product_name(product: Seq<char>) -> Seq<char> {
    before_first(product, "/"@)
}

/// The version in a product token.
pub open spec fn product_version(product: Seq<char>) -> Option<Seq<char>> {
    if first_of(product, "/"@) < product.len() {
        Some(after_first(product, "/"@))
    } else {
        None
    }
}

/// The parenthesized comment of a `User-Agent`.
pub open spec fn comment_of(user_agent: Seq<char>) -> Option<Seq<char>> {
    if first_of(user_agent, "("@) < user_agent.len() {
        let rest = after_first(user_agent, "("@);
        if first_of(rest, ")"@) < rest.len() {
            Some(before_first(rest, ")"@))
        } else {
            None
        }
    } else {
        None
    }
}

/// Takes one part of a comment in: `Python/<version>` gives the interpreter, and
/// the first other part that is not empty gives the operating system.
pub open spec fn read_part(part: Seq<char>, seen: Caller) -> Caller {
    if first_of(part, "/"@) < part.len() && before_first(part, "/"@) == "Python"@ {
        Caller { python_version: Some(after_first(part, "/"@)), ..seen }
    } else if part.len() > 0 && seen.os is None {
        Caller { os: Some(part), ..seen }
    } else {
        seen
    }
}

/// Takes the parts of a comment in, which semicolons set apart.
pub open spec fn read_comment(comment: Seq<char>, seen: Caller) -> Caller
    decreases comment.len(),
{
    proof {
        lemma_first_of_bounds(comment, ";"@);
    }
    let now = read_part(trimmed(before_first(comment, ";"@)), seen);
    if first_of(comment, ";"@) < comment.len() {
        read_comment(after_first(comment, ";"@), now)
    } else {
        now
    }
}

/// The bucket that a client which is neither the package nor a browser falls in.
pub open spec fn bucket_of(name: Seq<char>) -> Seq<char> {
    if has_prefix_folded(name, "python-httpx"@) {
        "httpx"@
    } else if has_prefix_folded(name, "python-requests"@) {
        "requests"@
    } else if has_prefix_folded(name, "curl"@) {
        "curl"@
    } else {
        "other"@
    }
}

/// What a `User-Agent` says: everything for the Babamul package's own
/// `name/version (Python/<version>; <os>)`, and for any other caller a bucket.
pub open spec fn caller_of(header: Seq<char>) -> Caller {
    let user_agent = trimmed(header);
    let product = product_token(user_agent);
    let name = product_name(product);
    if user_agent.len() == 0 {
        unknown_caller()
    } else if name == "babamul-python"@ {
        let package = Caller {
            client: Some(name),
            client_version: product_version(product),
            ..unknown_caller()
        };
        match comment_of(user_agent) {
            Some(comment) => read_comment(comment, package),
            None => package,
        }
    } else if occurs_in(user_agent, "Mozilla"@) {
        Caller { client: Some("browser"@), ..unknown_caller() }
    } else if name.len() > 0 {
        Caller { client: Some(bucket_of(name)), ..unknown_caller() }
    } else {
        unknown_caller()
    }
}

fn read_comment_into(comment: &str, info: &mut ClientInfo)
    ensures
        final(info).caller() == read_comment(comment@, old(info).caller()),
        final(info).auth_method == old(info).auth_method,
    decreases comment@.len(),
{
    proof {
        lemma_first_of_bounds(comment@, ";"@);
    }
    let at: usize = find_first_of(comment, ";");
    let n: usize = comment.unicode_len();
    let head = comment.substring_char(0, at);
    assert(head@ =~= before_first(comment@, ";"@));
    let part = trim(head);
    let mut python = false;
    if let Some((name, version)) = split_once(part, "/") {
        if same(name, "Python") {
            info.python_version = Some(version.to_string());
            python = true;
        }
    }
    if !python && !part.is_empty() && info.os.is_none() {
        info.os = Some(part.to_string());
    }
    assert(info.caller() =~= read_part(part@, old(info).caller()));
    if at < n {
        let tail = comment.substring_char(at + 1, n);
        assert(tail@ =~= after_first(comment@, ";"@));
        read_comment_into(tail, info);
    }
}

/// Parses a `User-Agent` into client name and version plus optional environment
/// detail from the parenthesized comment. The raw string is never kept.
pub fn parse_user_agent(user_agent: &str) -> (info: ClientInfo)
    ensures
        info.caller() == caller_of(user_agent@),
        info.auth_method@ == "none"@,
{
    let mut info = ClientInfo {
        client: None,
        client_version: None,
        python_version: None,
        os: None,
        auth_method: "none",
    };
    let user_agent = trim(user_agent);
    if user_agent.is_empty() {
        assert(info.caller() =~= unknown_caller());
        return info;
    }
    let head = user_agent.substring_char(0, find_first_of(user_agent, "( "));
    assert(head@ =~= before_first(user_agent@, "( "@));
    let product = trim(head);
    let name = product.substring_char(0, find_first_of(product, "/"));
    assert(name@ =~= product_name(product@));
    if same(name, "babamul-python") {
        info.client = Some(name.to_string());
        info.client_version = match split_once(product, "/") {
            Some((_, version)) => Some(version.to_string()),
            None => None,
        };
        if let Some((_, rest)) = split_once(user_agent, "(") {
            if let Some((comment, _)) = split_once(rest, ")") {
                read_comment_into(comment, &mut info);
            }
        }
    } else if contains(user_agent, "Mozilla") {
        info.client = Some("browser".to_string());
    } else if !name.is_empty() {
        let bucket = if starts_with_ignore_ascii_case(name, "python-httpx") {
            "httpx"
        } else if starts_with_ignore_ascii_case(name, "python-requests") {
            "requests"
        } else if starts_with_ignore_ascii_case(name, "curl") {
            "curl"
        } else {
            "other"
        };
        info.client = Some(bucket.to_string());
    }
    info
}

/// A caller's name is one of six, whatever its `User-Agent`, so it can label a
/// metric.
pub proof fn client_is_one_of_a_handful(header: Seq<char>)
    ensures
        caller_of(header).client matches Some(name) ==> {
            ||| name == "babamul-python"@
            ||| name == "browser"@
            ||| name == "httpx"@
            ||| name == "requests"@
            ||| name == "curl"@
            ||| name == "other"@
        },
{
    let user_agent = trimmed(header);
    let product = product_token(user_agent);
    let package = Caller {
        client: Some(product_name(product)),
        client_version: product_version(product),
        ..unknown_caller()
    };
    if let Some(comment) = comment_of(user_agent) {
        comment_keeps_the_product(comment, package);
    }
}

/// Nothing but the name bucket is kept of a caller that is not the package, so
/// that an unusual string cannot be used to tell a user apart.
pub proof fn other_callers_leave_only_a_bucket(header: Seq<char>)
    requires
        product_name(product_token(trimmed(header))) != "babamul-python"@,
    ensures
        caller_of(header).client_version is None,
        caller_of(header).python_version is None,
        caller_of(header).os is None,
{
}

/// A comment says nothing of the product.
proof fn comment_keeps_the_product(comment: Seq<char>, seen: Caller)
    ensures
        read_comment(comment, seen).client == seen.client,
        read_comment(comment, seen).client_version == seen.client_version,
    decreases comment.len(),
{
    lemma_first_of_bounds(comment, ";"@);
    let now = read_part(trimmed(before_first(comment, ";"@)), seen);
    if first_of(comment, ";"@) < comment.len() {
        comment_keeps_the_product(after_first(comment, ";"@), now);
    }
}

/// How a request authenticates: by a personal access token, by a JWT, or not.
pub open spec fn auth_method_of(authorization: Option<Seq<char>>) -> Seq<char> {
    match authorization {
        Some(value) => if has_prefix(value, "Bearer bbml_"@) {
            "personal_access_token"@
        } else if has_prefix(value, "Bearer "@) {
            "jwt"@
        } else {
            "none"@
        },
        None => "none"@,
    }
}

/// The characters of an optional string slice.
pub open spec fn slice_text(s: Option<&str>) -> Option<Seq<char>> {
    match s {
        Some(s) => Some(s@),
        None => None,
    }
}

impl ClientInfo {
    /// Reads the `User-Agent` and `Authorization` headers of a request. A header
    /// that is missing or is not text is `None`.
    pub fn from_request(user_agent: Option<&str>, authorization: Option<&str>) -> (info: ClientInfo)
        ensures
            info.caller() == caller_of(
                match user_agent {
                    Some(value) => value@,
                    None => ""@,
                },
            ),
            info.auth_method@ == auth_method_of(slice_text(authorization)),
    {
        let auth_method = match authorization {
            Some(value) => {
                if starts_with(value, "Bearer bbml_") {
                    "personal_access_token"
                } else if starts_with(value, "Bearer ") {
                    "jwt"
                } else {
                    "none"
                }
            },
            None => "none",
        };
        let mut info = parse_user_agent(
            match user_agent {
                Some(value) => value,
                None => "",
            },
        );
        info.auth_method = auth_method;
        info
    }

    /// Who made a request, where it was made to the Babamul API: other callers are of no
    /// interest.
    pub fn for_request(
        path: &str,
        user_agent: Option<&str>,
        authorization: Option<&str>,
    ) -> (info: Option<ClientInfo>)
        ensures
            info is Some <==> is_babamul_path(path@),
            info matches Some(info) ==> {
                &&& info.caller() == caller_of(
                    match user_agent {
                        Some(value) => value@,
                        None => ""@,
                    },
                )
                &&& info.auth_method@ == auth_method_of(slice_text(authorization))
            },
    {
        if starts_with(path, "/babamul") {
            Some(ClientInfo::from_request(user_agent, authorization))
        } else {
            None
        }
    }
}

/// Which of the two APIs a path belongs to.
pub open spec fn is_babamul_path(path: Seq<char>) -> bool {
    has_prefix(path, "/babamul"@)
}

pub fn api_of(path: &str) -> (api: &'static str)
    ensures
        api@ == if is_babamul_path(path@) {
            "babamul"@
        } else {
            "boom"@
        },
{
    if starts_with(path, "/babamul") {
        "babamul"
    } else {
        "boom"
    }
}

/// The name a metric gives the caller.
pub open spec fn client_label(info: Option<&ClientInfo>) -> Seq<char> {
    match info {
        Some(info) => match info.client {
            Some(name) => name@,
            None => "unknown"@,
        },
        None => "unknown"@,
    }
}

pub fn client_attribute(info: Option<&ClientInfo>) -> (label: String)
    ensures
        label@ == client_label(info),
{
    match info {
        Some(info) => match &info.client {
            Some(name) => name.clone(),
            None => "unknown".to_string(),
        },
        None => "unknown".to_string(),
    }
}

/// What is known when a request has been answered.
#[derive(Debug)]
pub struct Answered {
    /// The pattern of the route that was matched, where one was.
    pub pattern: Option<String>,
    pub path: String,
    /// The user that the request was authenticated as.
    pub user_id: Option<String>,
}

/// The endpoint under which a request is reported: the route's pattern where it
/// is known, so that an object id does not make an endpoint of its own.
pub open spec fn endpoint_of(answered: Option<Answered>, path: Seq<char>) -> Seq<char> {
    match answered {
        Some(answered) => match answered.pattern {
            Some(pattern) => pattern@,
            None => answered.path@,
        },
        None => path,
    }
}

/// The user that a request is reported for. A request that failed before it
/// reached a handler has none.
pub open spec fn user_of(answered: Option<Answered>) -> Option<Seq<char>> {
    match answered {
        Some(answered) => text_of(answered.user_id),
        None => None,
    }
}

/// A fact that is stated only when it is known.
pub open spec fn and_maybe(
    facts: Map<Seq<char>, Fact>,
    key: Seq<char>,
    value: Option<Seq<char>>,
) -> Map<Seq<char>, Fact> {
    match value {
        Some(text) => facts.insert(key, Fact::Text(text)),
        None => facts,
    }
}

/// What is reported of a request.
pub open spec fn request_facts(
    endpoint: Seq<char>,
    method: Seq<char>,
    status_code: u16,
    duration_ms: u64,
    user: Option<Seq<char>>,
    info: ClientInfo,
) -> Map<Seq<char>, Fact> {
    let caller = info.caller();
    let facts = no_facts().insert("endpoint"@, Fact::Text(endpoint)).insert(
        "method"@,
        Fact::Text(method),
    ).insert("status_code"@, Fact::Number(status_code as int)).insert(
        "success"@,
        Fact::Flag(200 <= status_code < 400),
    ).insert("duration_ms"@, Fact::Number(duration_ms as int)).insert(
        "authenticated"@,
        Fact::Flag(user is Some),
    ).insert("auth_method"@, Fact::Text(info.auth_method@)).insert(
        "client"@,
        Fact::Text(
            match caller.client {
                Some(name) => name,
                None => "unknown"@,
            },
        ),
    );
    let detailed = and_maybe(
        and_maybe(
            and_maybe(facts, "client_version"@, caller.client_version),
            "python_version"@,
            caller.python_version,
        ),
        "client_os"@,
        caller.os,
    );
    if user is Some {
        detailed
    } else {
        detailed.insert("$process_person_profile"@, Fact::Flag(false))
    }
}

fn text_property(s: &Option<String>) -> (property: Option<Property>)
    ensures
        match text_of(*s) {
            Some(text) => property matches Some(p) && p@ == Fact::Text(text),
            None => property is None,
        },
{
    match s {
        Some(s) => Some(Property::Text(s.clone())),
        None => None,
    }
}

/// Assembles the `babamul_api_request` event.
pub fn build_request_event(
    endpoint: &str,
    method: &str,
    status_code: u16,
    duration_ms: u64,
    user_id: Option<&str>,
    client_info: &ClientInfo,
) -> (event: AnalyticsEvent)
    ensures
        event.event@ == "babamul_api_request"@,
        event.distinct_id@ == match user_id {
            Some(id) => id@,
            None => ANONYMOUS_DISTINCT_ID@,
        },
        event.facts() == request_facts(
            endpoint@,
            method@,
            status_code,
            duration_ms,
            slice_text(user_id),
            *client_info,
        ),
{
    let distinct_id = match user_id {
        Some(id) => id,
        None => ANONYMOUS_DISTINCT_ID,
    };
    let client = match &client_info.client {
        Some(name) => name.clone(),
        None => "unknown".to_string(),
    };
    let event = AnalyticsEvent::new("babamul_api_request", distinct_id).with(
        "endpoint",
        Property::Text(endpoint.to_string()),
    ).with("method", Property::Text(method.to_string())).with(
        "status_code",
        Property::Count(status_code as u64),
    ).with("success", Property::Flag(200 <= status_code && status_code < 400)).with(
        "duration_ms",
        Property::Count(duration_ms),
    ).with("authenticated", Property::Flag(user_id.is_some())).with(
        "auth_method",
        Property::Text(client_info.auth_method.to_string()),
    ).with("client", Property::Text(client)).with_opt(
        "client_version",
        text_property(&client_info.client_version),
    ).with_opt("python_version", text_property(&client_info.python_version)).with_opt(
        "client_os",
        text_property(&client_info.os),
    );
    if user_id.is_some() {
        event
    } else {
        event.anonymous()
    }
}

/// Reports a request, when there is a client to report it to that is enabled and
/// the request was made to the Babamul API. A request that failed is reported
/// too: an expired token shows up nowhere else.
pub fn report_request(
    analytics: Option<&AnalyticsClient>,
    client_info: Option<&ClientInfo>,
    answered: &Option<Answered>,
    path: &str,
    method: &str,
    status_code: u16,
    duration_ms: u64,
) -> (event: Option<AnalyticsEvent>)
    ensures
        event is Some <==> is_babamul_path(path@) && client_info is Some && (
        analytics matches Some(client) && client.queue is Some),
        event matches Some(event) ==> {
            &&& event.event@ == "babamul_api_request"@
            &&& event.distinct_id@ == match user_of(*answered) {
                Some(id) => id,
                None => ANONYMOUS_DISTINCT_ID@,
            }
            &&& event.facts() == request_facts(
                endpoint_of(*answered, path@),
                method@,
                status_code,
                duration_ms,
                user_of(*answered),
                *client_info->0,
            )
        },
{
    let analytics = match analytics {
        Some(analytics) => analytics,
        None => {
            return None;
        },
    };
    let client_info = match client_info {
        Some(client_info) => client_info,
        None => {
            return None;
        },
    };
    if !analytics.is_enabled() || !starts_with(path, "/babamul") {
        return None;
    }
    let endpoint = match answered {
        Some(answered) => match &answered.pattern {
            Some(pattern) => pattern.as_str(),
            None => answered.path.as_str(),
        },
        None => path,
    };
    let user_id = match answered {
        Some(answered) => match &answered.user_id {
            Some(id) => Some(id.as_str()),
            None => None,
        },
        None => None,
    };
    Some(build_request_event(endpoint, method, status_code, duration_ms, user_id, client_info))
}

/// A request made by nobody known is reported as anonymous and makes no person
/// profile; one made by a user keeps the profile and is never flagged.
pub proof fn only_anonymous_requests_opt_out_of_profiles(
    endpoint: Seq<char>,
    method: Seq<char>,
    status_code: u16,
    duration_ms: u64,
    user: Option<Seq<char>>,
    info: ClientInfo,
)
    ensures
        ({
            let facts = request_facts(endpoint, method, status_code, duration_ms, user, info);
            let flag = "$process_person_profile"@;
            &&& facts.contains_key(flag) <==> user is None
            &&& user is None ==> facts[flag] == Fact::Flag(false)
            &&& facts["authenticated"@] == Fact::Flag(user is Some)
        }),
{
    reveal_strlit("$process_person_profile");
    reveal_strlit("endpoint");
    reveal_strlit("method");
    reveal_strlit("status_code");
    reveal_strlit("success");
    reveal_strlit("duration_ms");
    reveal_strlit("authenticated");
    reveal_strlit("auth_method");
    reveal_strlit("client");
    reveal_strlit("client_version");
    reveal_strlit("python_version");
    reveal_strlit("client_os");
    let flag = "$process_person_profile"@;
    assert(flag[0] == '$');
    assert("endpoint"@[0] == 'e');
    assert("method"@[0] == 'm');
    assert("status_code"@[0] == 's');
    assert("success"@[0] == 's');
    assert("duration_ms"@[0] == 'd');
    assert("authenticated"@[4] == 'e');
    assert("auth_method"@[4] == '_');
    assert("client"@[0] == 'c');
    assert("client_version"@[0] == 'c');
    assert("python_version"@[0] == 'p');
    assert("client_os"@[0] == 'c');
}

}
