use boom::api::analytics::{AnalyticsClient, AnalyticsEvent};
use boom::api::observability::{
    api_of, build_request_event, client_attribute, parse_user_agent, report_request, Answered,
    ClientInfo, ANONYMOUS_DISTINCT_ID,
};
use boom::conf::PostHogConfig;

#[test]
fn parses_the_babamul_package_user_agent() {
    let info = parse_user_agent("babamul-python/0.2.0 (Python/3.12.1; Linux)");
    assert_eq!(info.client.as_deref(), Some("babamul-python"));
    assert_eq!(info.client_version.as_deref(), Some("0.2.0"));
    assert_eq!(info.python_version.as_deref(), Some("3.12.1"));
    assert_eq!(info.os.as_deref(), Some("Linux"));
}

#[test]
fn parses_package_user_agent_without_a_comment() {
    let info = parse_user_agent("babamul-python/0.2.0");
    assert_eq!(info.client.as_deref(), Some("babamul-python"));
    assert_eq!(info.client_version.as_deref(), Some("0.2.0"));
    assert_eq!(info.python_version, None);
    assert_eq!(info.os, None);
}

#[test]
fn buckets_other_clients_without_storing_the_raw_string() {
    assert_eq!(
        parse_user_agent("Mozilla/5.0 (Macintosh; Intel Mac OS X 10_15_7)")
            .client
            .as_deref(),
        Some("browser")
    );
    assert_eq!(
        parse_user_agent("python-httpx/0.27.0").client.as_deref(),
        Some("httpx")
    );
    assert_eq!(
        parse_user_agent("curl/8.4.0").client.as_deref(),
        Some("curl")
    );
    assert_eq!(
        parse_user_agent("SomeBespokeClient/1.0").client.as_deref(),
        Some("other")
    );
}

#[test]
fn empty_user_agent_yields_no_client() {
    let info = parse_user_agent("");
    assert!(info.client.is_none());
    assert!(info.client_version.is_none());
}

#[test]
fn rejected_requests_are_captured_as_anonymous() {
    let mut client_info = parse_user_agent("babamul-python/0.2.0 (Python/3.12.1; Linux)");
    client_info.auth_method = "personal_access_token";

    let event = build_request_event("/babamul/profile", "GET", 401, 3, None, &client_info);

    assert_eq!(event.distinct_id, ANONYMOUS_DISTINCT_ID);
    assert_eq!(event.properties.get("status_code").unwrap(), 401);
    assert_eq!(event.properties.get("success").unwrap(), false);
    assert_eq!(event.properties.get("authenticated").unwrap(), false);
    // Still attributable to the package, which is what makes the 401
    // actionable.
    assert_eq!(event.properties.get("client").unwrap(), "babamul-python");
    assert_eq!(
        event.properties.get("auth_method").unwrap(),
        "personal_access_token"
    );
    // Must not create a person profile for the anonymous bucket.
    assert_eq!(
        event.properties.get("$process_person_profile").unwrap(),
        false
    );
}

#[test]
fn authenticated_requests_are_keyed_on_the_user_id() {
    let client_info = parse_user_agent("babamul-python/0.2.0 (Python/3.12.1; Linux)");
    let event = build_request_event(
        "/babamul/surveys/{survey}/objects/{object_id}",
        "GET",
        200,
        12,
        Some("user-42"),
        &client_info,
    );

    assert_eq!(event.distinct_id, "user-42");
    assert_eq!(event.properties.get("authenticated").unwrap(), true);
    assert_eq!(event.properties.get("success").unwrap(), true);
    // The route pattern, not a path with a real object id baked in.
    assert_eq!(
        event.properties.get("endpoint").unwrap(),
        "/babamul/surveys/{survey}/objects/{object_id}"
    );
    // Identified events must keep person profiles enabled.
    assert!(!event.properties.contains_key("$process_person_profile"));
}

#[test]
fn a_request_event_carries_the_whole_environment() {
    let info = parse_user_agent("babamul-python/0.2.0 (Python/3.12.1; Linux)");
    let event = build_request_event("/babamul/profile", "POST", 399, 17, Some("u"), &info);
    assert_eq!(event.event, "babamul_api_request");
    assert_eq!(event.properties.get("method").unwrap(), "POST");
    assert_eq!(event.properties.get("duration_ms").unwrap(), 17);
    assert_eq!(event.properties.get("success").unwrap(), true);
    assert_eq!(event.properties.get("client_version").unwrap(), "0.2.0");
    assert_eq!(event.properties.get("python_version").unwrap(), "3.12.1");
    assert_eq!(event.properties.get("client_os").unwrap(), "Linux");
    assert_eq!(event.properties.len(), 11);
    // A timestamp in RFC 3339 form: date, time and offset.
    assert_eq!(&event.timestamp[4..5], "-");
    assert_eq!(&event.timestamp[10..11], "T");
    assert!(event.timestamp.ends_with("+00:00"));
}

#[test]
fn a_caller_without_a_user_agent_is_unknown() {
    let info = parse_user_agent("   ");
    let event = build_request_event("/babamul", "GET", 400, 1, None, &info);
    assert_eq!(event.properties.get("client").unwrap(), "unknown");
    assert_eq!(event.properties.get("success").unwrap(), false);
    assert_eq!(client_attribute(Some(&info)), "unknown");
    assert_eq!(client_attribute(None), "unknown");
}

#[test]
fn bearer_tokens_tell_the_auth_methods_apart() {
    let method = |header| ClientInfo::from_request(None, header).auth_method;
    assert_eq!(method(Some("Bearer bbml_abc")), "personal_access_token");
    assert_eq!(method(Some("Bearer ey.abc")), "jwt");
    assert_eq!(method(Some("Basic abc")), "none");
    assert_eq!(method(None), "none");
}

#[test]
fn a_header_with_odd_comments_is_read_part_by_part() {
    let info = parse_user_agent(" babamul-python (  ; Python/3.9 ; Darwin; arm64) ");
    assert_eq!(info.client.as_deref(), Some("babamul-python"));
    assert_eq!(info.client_version, None);
    assert_eq!(info.python_version.as_deref(), Some("3.9"));
    assert_eq!(info.os.as_deref(), Some("Darwin"));
    let unclosed = parse_user_agent("babamul-python/1 (Python/3.9");
    assert_eq!(unclosed.python_version, None);
    assert_eq!(parse_user_agent("Python-Requests/2").client.as_deref(), Some("requests"));
}

fn enabled_client() -> AnalyticsClient {
    AnalyticsClient::from_config(&PostHogConfig {
        project_api_key: "phc_test".to_string(),
        host: "https://us.i.posthog.com//".to_string(),
        queue_capacity: 0,
        flush_interval_seconds: 0,
    })
}

#[test]
fn the_route_pattern_names_the_endpoint() {
    let client = enabled_client();
    let info = ClientInfo::from_request(Some("curl/8"), None);
    let report = |answered: Option<Answered>| -> Option<AnalyticsEvent> {
        report_request(Some(&client), Some(&info), &answered, "/babamul/x", "GET", 200, 1)
    };
    let matched = report(Some(Answered {
        pattern: Some("/babamul/{id}".to_string()),
        path: "/babamul/7".to_string(),
        user_id: Some("u".to_string()),
    }))
    .unwrap();
    assert_eq!(matched.properties.get("endpoint").unwrap(), "/babamul/{id}");
    assert_eq!(matched.distinct_id, "u");
    let unmatched = report(Some(Answered {
        pattern: None,
        path: "/babamul/7".to_string(),
        user_id: None,
    }))
    .unwrap();
    assert_eq!(unmatched.properties.get("endpoint").unwrap(), "/babamul/7");
    let failed = report(None).unwrap();
    assert_eq!(failed.properties.get("endpoint").unwrap(), "/babamul/x");
    assert_eq!(failed.distinct_id, ANONYMOUS_DISTINCT_ID);
}

#[test]
fn nothing_is_reported_without_an_enabled_client() {
    let info = ClientInfo::from_request(None, None);
    let off = AnalyticsClient::disabled();
    assert!(report_request(Some(&off), Some(&info), &None, "/babamul", "GET", 200, 1).is_none());
    assert!(report_request(None, Some(&info), &None, "/babamul", "GET", 200, 1).is_none());
    assert!(report_request(Some(&enabled_client()), None, &None, "/babamul", "GET", 200, 1).is_none());
}

#[test]
fn only_babamul_requests_are_reported() {
    let client = enabled_client();
    let info = ClientInfo::from_request(Some("curl/8"), None);
    let report = |path: &str| report_request(Some(&client), Some(&info), &None, path, "GET", 200, 1);
    assert!(report("/babamul/surveys").is_some());
    assert!(report("/surveys/babamul").is_none());
    let known = ClientInfo::for_request("/babamul/x", Some("curl/8"), Some("Bearer t")).unwrap();
    assert_eq!(known.client, info.client);
    assert_eq!(known.auth_method, "jwt");
    assert!(ClientInfo::for_request("/queries", Some("curl/8"), None).is_none());
}

#[test]
fn paths_belong_to_one_of_two_apis() {
    assert_eq!(api_of("/babamul/surveys"), "babamul");
    assert_eq!(api_of("/"), "boom");
}
