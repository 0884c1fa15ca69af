use boom::api::analytics::{
    book_batch, AnalyticsClient, AnalyticsEvent, Batch, Delivery, Enqueued, FlushInput,
    MAX_BATCH_SIZE,
};
use boom::conf::PostHogConfig;
use boom::json::Property;

fn config(project_api_key: &str, queue_capacity: usize) -> PostHogConfig {
    PostHogConfig {
        project_api_key: project_api_key.to_string(),
        host: "https://us.i.posthog.com/".to_string(),
        queue_capacity,
        flush_interval_seconds: 10,
    }
}

#[test]
fn disabled_client_swallows_events() {
    let mut client = AnalyticsClient::disabled();
    assert!(!client.is_enabled());
    // Must not count anything even though there is no queue.
    let _event = AnalyticsEvent::new("test", "user-1");
    assert!(client.capture(Enqueued::Closed).is_none());
    assert_eq!(client.dropped, 0);
}

#[test]
fn from_config_without_key_is_disabled() {
    assert!(!AnalyticsClient::from_config(&config("", 10_000)).is_enabled());
}

#[test]
fn zero_queue_capacity_does_not_panic() {
    let mut client = AnalyticsClient::from_config(&config("phc_test", 0));
    assert!(client.is_enabled());
    assert_eq!(client.queue.as_ref().unwrap().capacity, 1);
    let _event = AnalyticsEvent::new("test", "user-1");
    assert!(client.capture(Enqueued::Accepted).is_none());
}

#[test]
fn with_opt_skips_none() {
    let event = AnalyticsEvent::new("test", "user-1")
        .with("a", Property::Count(1))
        .with_opt("b", None)
        .with_opt("c", Some(Property::Text("yes".to_string())));
    assert!(event.properties.contains_key("a"));
    assert!(!event.properties.contains_key("b"));
    assert_eq!(event.properties.get("c").unwrap(), "yes");
}

#[test]
fn anonymous_events_opt_out_of_person_profiles() {
    let event = AnalyticsEvent::new("test", "anon").anonymous();
    assert_eq!(
        event.properties.get("$process_person_profile").unwrap(),
        false
    );
}

#[test]
fn a_property_is_replaced_and_the_rest_kept() {
    let event = AnalyticsEvent::stamped("e", "d", "2024-01-01T00:00:00Z".to_string())
        .with("a", Property::Integer(-7))
        .with("b", Property::Flag(true))
        .with("a", Property::Integer(8));
    assert_eq!(event.properties.len(), 2);
    assert_eq!(event.properties.get("a").unwrap(), 8);
    assert_eq!(event.properties.get("b").unwrap(), true);
    assert_eq!(event.timestamp, "2024-01-01T00:00:00Z");
}

#[test]
fn the_host_loses_its_trailing_slashes() {
    let mut settings = config("phc_test", 5);
    settings.host = "https://eu.i.posthog.com///".to_string();
    settings.flush_interval_seconds = 0;
    let queue = AnalyticsClient::from_config(&settings).queue.unwrap();
    assert_eq!(queue.host, "https://eu.i.posthog.com");
    assert_eq!(queue.api_key, "phc_test");
    assert_eq!(queue.capacity, 5);
    assert_eq!(queue.flush_interval_seconds, 1);
}

#[test]
fn the_first_drop_and_every_thousandth_are_logged() {
    let mut client = AnalyticsClient::from_config(&config("phc_test", 5));
    let mut logged = vec![];
    for _ in 0..2000 {
        let report = client.capture(Enqueued::Full).unwrap();
        assert_eq!(report.reason, "queue_full");
        if report.logged {
            logged.push(report.dropped);
        }
    }
    assert_eq!(logged, vec![1, 1000, 2000]);
    let closed = client.capture(Enqueued::Closed).unwrap();
    assert_eq!(closed.reason, "queue_closed");
    assert_eq!(closed.dropped, 2001);
}

#[test]
fn a_batch_is_sent_when_it_is_full() {
    let mut batch = Batch::new();
    for i in 1..MAX_BATCH_SIZE {
        let event = AnalyticsEvent::new("e", &i.to_string());
        assert!(batch.step(FlushInput::Received(event)).is_none());
    }
    let sent = batch
        .step(FlushInput::Received(AnalyticsEvent::new("e", "last")))
        .unwrap();
    assert_eq!(sent.len(), 250);
    assert_eq!(sent[0].distinct_id, "1");
    assert_eq!(sent[249].distinct_id, "last");
    assert!(batch.events.is_empty());
}

#[test]
fn ticks_and_closing_send_what_is_pending() {
    let mut batch = Batch::new();
    assert!(batch.step(FlushInput::Tick).is_none());
    batch.step(FlushInput::Received(AnalyticsEvent::new("e", "a")));
    assert_eq!(batch.step(FlushInput::Tick).unwrap().len(), 1);
    batch.step(FlushInput::Received(AnalyticsEvent::new("e", "b")));
    assert_eq!(batch.step(FlushInput::Closed).unwrap()[0].distinct_id, "b");
    assert!(batch.step(FlushInput::Closed).is_none());
}

#[test]
fn a_batch_is_booked_by_the_reply() {
    assert!(matches!(book_batch(Some(200), 3), Delivery::Sent(3)));
    assert!(matches!(book_batch(Some(299), 3), Delivery::Sent(3)));
    assert!(matches!(book_batch(Some(300), 3), Delivery::Dropped(3, "http_error")));
    assert!(matches!(book_batch(Some(199), 3), Delivery::Dropped(3, "http_error")));
    assert!(matches!(book_batch(None, 3), Delivery::Dropped(3, "request_failed")));
}
