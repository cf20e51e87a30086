use helpdesk_core::auth::{Claims, CredentialCheck};
use helpdesk_core::codec::parse_client_frame;
use helpdesk_core::connection::{Connection, UpgradeRejection};
use helpdesk_core::registry::Subscription;
use helpdesk_core::ids::{MessageId, TicketId, UserId};
use helpdesk_core::message::{ChatMessage, PersistError};
use helpdesk_core::pipeline::{ingest_commit, validate_payload, IngestError};
use helpdesk_core::registry::{PollOutcome, Registry};

fn claims_for(user: u128) -> Claims {
    Claims {
        sub: UserId(user),
        email: String::from("user@example.com"),
        role: String::from("user"),
        exp: 2000000000,
        iat: 1000000000,
    }
}

fn message(id: u128, ticket: u128, sender: u128, content: &str, from_customer: bool) -> ChatMessage {
    ChatMessage {
        id: MessageId(id),
        ticket_id: TicketId(ticket),
        sender_id: UserId(sender),
        content: String::from(content),
        is_from_customer: from_customer,
        created_at: String::from("2024-05-01T10:00:00+00:00"),
    }
}

#[test]
fn topic_creation_is_idempotent() {
    let mut reg = Registry::new(100);
    let t = TicketId(7);
    let a = reg.get_or_create(t);
    let b = reg.get_or_create(t);
    assert_eq!(a, b);
    assert_eq!(reg.topics.len(), 1);
    let other = reg.get_or_create(TicketId(8));
    assert_ne!(a, other);
    assert_eq!(reg.topics.len(), 2);
}

#[test]
fn publish_reaches_all_subscribers_of_the_ticket_and_no_other() {
    let mut reg = Registry::new(100);
    let t1 = TicketId(1);
    let t2 = TicketId(2);
    let s1 = reg.subscribe(t1).unwrap();
    let s2 = reg.subscribe(t1).unwrap();
    let s3 = reg.subscribe(t2).unwrap();
    reg.publish(&message(10, 1, 5, "hello", true));
    for s in [&s1, &s2] {
        match reg.poll_next(s) {
            PollOutcome::Delivered(m) => {
                assert_eq!(m.content, "hello");
                assert_eq!(m.id, MessageId(10));
            }
            _ => panic!("subscriber of ticket 1 must receive the message"),
        }
    }
    match reg.poll_next(&s3) {
        PollOutcome::Pending => {}
        _ => panic!("a subscriber of another ticket must receive nothing"),
    }
}

#[test]
fn messages_are_delivered_in_publish_order() {
    let mut reg = Registry::new(100);
    let t = TicketId(3);
    let s = reg.subscribe(t).unwrap();
    reg.publish(&message(1, 3, 5, "first", true));
    reg.publish(&message(2, 3, 5, "second", false));
    match reg.poll_next(&s) {
        PollOutcome::Delivered(m) => assert_eq!(m.content, "first"),
        _ => panic!("first message missing"),
    }
    match reg.poll_next(&s) {
        PollOutcome::Delivered(m) => assert_eq!(m.content, "second"),
        _ => panic!("second message missing"),
    }
    assert!(matches!(reg.poll_next(&s), PollOutcome::Pending));
}

#[test]
fn slow_subscriber_is_cut_off_without_blocking_the_rest() {
    let mut reg = Registry::new(2);
    let t = TicketId(4);
    let slow = reg.subscribe(t).unwrap();
    let fast = reg.subscribe(t).unwrap();
    reg.publish(&message(1, 4, 5, "a", true));
    reg.publish(&message(2, 4, 5, "b", true));
    // the fast subscriber keeps draining; the slow one does not
    match reg.poll_next(&fast) {
        PollOutcome::Delivered(m) => assert_eq!(m.content, "a"),
        _ => panic!("fast subscriber fell behind unexpectedly"),
    }
    match reg.poll_next(&fast) {
        PollOutcome::Delivered(m) => assert_eq!(m.content, "b"),
        _ => panic!("fast subscriber fell behind unexpectedly"),
    }
    // the slow subscriber's feed is full: the next publish cuts it off
    reg.publish(&message(3, 4, 5, "c", true));
    match reg.poll_next(&fast) {
        PollOutcome::Delivered(m) => assert_eq!(m.content, "c"),
        _ => panic!("delivery to the fast subscriber must not be blocked"),
    }
    assert!(matches!(reg.poll_next(&slow), PollOutcome::Lagged));
}

#[test]
fn unsubscribe_releases_the_feed_but_keeps_the_topic() {
    let mut reg = Registry::new(100);
    let t = TicketId(5);
    let s1 = reg.subscribe(t).unwrap();
    let _s2 = reg.subscribe(t).unwrap();
    reg.unsubscribe(s1);
    assert_eq!(reg.topics.len(), 1);
    assert_eq!(reg.topics[0].subs.len(), 1);
}

#[test]
fn persistence_failure_publishes_nothing() {
    // Scenario: persistence is made to fail for one ingest call.
    let mut reg = Registry::new(100);
    let t = TicketId(6);
    let s = reg.subscribe(t).unwrap();
    let outcome: Result<ChatMessage, PersistError> =
        Err(PersistError { detail: String::from("insert failed") });
    let r = ingest_commit(&mut reg, outcome);
    match r {
        Err(IngestError::Persistence(e)) => assert_eq!(e.detail, "insert failed"),
        _ => panic!("the pipeline must pass the store's error through"),
    }
    assert!(matches!(reg.poll_next(&s), PollOutcome::Pending));
}

#[test]
fn successful_ingest_is_echoed_to_the_sender() {
    let mut reg = Registry::new(100);
    let t = TicketId(9);
    let sender = reg.subscribe(t).unwrap();
    let stored = message(77, 9, 5, "hi there", true);
    let r = ingest_commit(&mut reg, Ok(stored));
    assert!(r.is_ok());
    match reg.poll_next(&sender) {
        PollOutcome::Delivered(m) => {
            assert_eq!(m.id, MessageId(77));
            assert_eq!(m.content, "hi there");
            assert_eq!(m.created_at, "2024-05-01T10:00:00+00:00");
        }
        _ => panic!("the sender's own connection must receive the echo"),
    }
}

#[test]
fn scenario_two_connections_one_sends_both_receive() {
    // Two connections subscribe to one ticket; A sends
    // {content:"hello", is_from_customer:true}; both receive a frame with
    // that content, a non-null id, and the flag set.
    let mut reg = Registry::new(100);
    let t = TicketId(21);
    let conn_a = Connection::open(&mut reg, t, Some(CredentialCheck::Accepted(claims_for(1))))
        .ok()
        .unwrap();
    let conn_b = Connection::open(&mut reg, t, Some(CredentialCheck::Accepted(claims_for(2))))
        .ok()
        .unwrap();

    let frame = parse_client_frame("{\"content\":\"hello\",\"is_from_customer\":true}").unwrap();
    assert!(validate_payload(&frame));
    let request = conn_a.on_frame(Some(frame)).unwrap();
    assert_eq!(request.ticket_id, t);
    assert_eq!(request.sender_id, UserId(1));

    // the store assigns the identifier and timestamp
    let stored = ChatMessage {
        id: MessageId(424242),
        ticket_id: request.ticket_id,
        sender_id: request.sender_id,
        content: request.content,
        is_from_customer: request.is_from_customer,
        created_at: String::from("2024-05-01T10:00:00+00:00"),
    };
    ingest_commit(&mut reg, Ok(stored)).unwrap();

    for conn in [&conn_a, &conn_b] {
        match conn.poll_outbound(&mut reg) {
            PollOutcome::Delivered(m) => {
                assert_eq!(m.content, "hello");
                assert!(m.is_from_customer);
                assert_ne!(m.id, MessageId(0));
            }
            _ => panic!("both connections must receive the frame"),
        }
    }
}

#[test]
fn scenario_upgrade_without_token_creates_no_topic() {
    // An upgrade with no token and no protocol header is rejected before
    // anything exists for the ticket.
    let mut reg = Registry::new(100);
    let t = TicketId(31);
    let r = Connection::open(&mut reg, t, None);
    assert!(matches!(r, Err(UpgradeRejection::MissingCredential)));
    assert_eq!(reg.topics.len(), 0);

    let r2 = Connection::open(&mut reg, t, Some(CredentialCheck::Rejected));
    assert!(matches!(r2, Err(UpgradeRejection::InvalidCredential)));
    assert_eq!(reg.topics.len(), 0);
}

#[test]
fn scenario_malformed_frame_is_dropped_and_the_next_one_processed() {
    // A malformed frame leaves the connection open; a later well-formed
    // frame is processed normally.
    let mut reg = Registry::new(100);
    let t = TicketId(41);
    let conn = Connection::open(&mut reg, t, Some(CredentialCheck::Accepted(claims_for(3))))
        .ok()
        .unwrap();

    let bad = parse_client_frame("{\"foo\":\"bar\"}");
    assert!(bad.is_none());
    assert!(conn.on_frame(bad).is_none());

    let good = parse_client_frame("{\"content\":\"still here\",\"is_from_customer\":false}");
    let request = conn.on_frame(good).unwrap();
    assert_eq!(request.content, "still here");
    assert!(!request.is_from_customer);
}

#[test]
fn teardown_keeps_the_topic_for_the_other_subscribers() {
    let mut reg = Registry::new(100);
    let t = TicketId(51);
    let mut conn = Connection::open(&mut reg, t, Some(CredentialCheck::Accepted(claims_for(4))))
        .ok()
        .unwrap();
    let other = reg.subscribe(t).unwrap();
    assert_eq!(reg.topics[0].subs.len(), 2);
    conn.teardown(&mut reg);
    // exactly this connection's subscriber left; the topic and the other
    // subscriber remain
    assert_eq!(reg.topics.len(), 1);
    assert_eq!(reg.topics[0].subs.len(), 1);
    assert!(conn.subscription.is_none());
    reg.publish(&message(5, 51, 9, "after teardown", false));
    match reg.poll_next(&other) {
        PollOutcome::Delivered(m) => assert_eq!(m.content, "after teardown"),
        _ => panic!("the remaining subscriber must still be served"),
    }
}

#[test]
fn rejected_upgrades_answer_unauthorized() {
    assert_eq!(UpgradeRejection::MissingCredential.status(), 401);
    assert_eq!(UpgradeRejection::InvalidCredential.status(), 401);
    assert_eq!(UpgradeRejection::ChannelExhausted.status(), 503);
}

#[test]
fn polling_a_released_subscription_reports_gone() {
    let mut reg = Registry::new(100);
    let t = TicketId(61);
    let s = reg.subscribe(t).unwrap();
    let stale = Subscription { ticket_id: s.ticket_id, sub_id: s.sub_id };
    reg.unsubscribe(s);
    assert!(matches!(reg.poll_next(&stale), PollOutcome::Gone));
}

#[test]
fn empty_content_fails_validation() {
    let frame = parse_client_frame("{\"content\":\"\",\"is_from_customer\":true}").unwrap();
    assert!(!validate_payload(&frame));
}
