use router_core::gateway::{classify_response, comment_event, AddComment, Counter, GatewayError};

#[test]
fn success_statuses_are_accepted() {
    assert!(classify_response(200).is_ok());
    assert!(classify_response(204).is_ok());
    assert!(classify_response(299).is_ok());
}

#[test]
fn other_statuses_become_the_downstream_error() {
    for status in [101u16, 199, 300, 302, 404, 500] {
        match classify_response(status) {
            Err(GatewayError::MicroserviceError) => {}
            other => panic!("status {} must be rejected, got {:?}", status, other),
        }
    }
}

#[test]
fn an_anonymous_comment_is_rejected() {
    let form = AddComment { text: "hello".to_string() };
    match comment_event(None, form) {
        Err(GatewayError::NotSignedIn) => {}
        other => panic!("an anonymous caller must be rejected, got {:?}", other),
    }
}

#[test]
fn an_identified_comment_becomes_a_notification() {
    let form = AddComment { text: "hello".to_string() };
    let event = comment_event(Some("user-1".to_string()), form).expect("identified");
    assert_eq!(event.uid, "user-1");
    assert_eq!(event.text, "hello");
}

#[test]
fn the_counter_counts_each_request() {
    let mut counter = Counter::new();
    assert_eq!(counter.value(), 0);
    counter.start();
    counter.start();
    counter.start();
    assert_eq!(counter.value(), 3);
}
