use helpdesk_core::auth::{csrf_allows, login_outcome, role_allowed, strip_bearer, LoginDecision};
use helpdesk_core::protocol::SecWebSocketProtocol;
use helpdesk_core::tickets::{
    agent_route_access, can_view_ticket, priority_or_default, validate_create_ticket,
    AgentRouteAccess, CreateTicketRequest, Ticket, TicketPriority, TicketStatus,
};
use helpdesk_core::auth::Claims;
use helpdesk_core::ids::{TicketId, UserId};
use validator::ValidateEmail;

#[test]
fn bearer_prefix_is_stripped_exactly() {
    assert_eq!(strip_bearer("Bearer abc.def.ghi").as_deref(), Some("abc.def.ghi"));
    assert_eq!(strip_bearer("Bearer "), Some(String::new()));
    assert_eq!(strip_bearer("bearer abc"), None);
    assert_eq!(strip_bearer("Basic abc"), None);
    assert_eq!(strip_bearer(""), None);
    assert_eq!(strip_bearer("Bearer"), None);
}

#[test]
fn roles_are_compared_after_trim_and_lowering() {
    let allowed = vec![String::from("admin"), String::from("agent")];
    assert!(role_allowed("admin", &allowed));
    assert!(role_allowed("  Agent ", &allowed));
    assert!(role_allowed("ADMIN", &allowed));
    assert!(!role_allowed("user", &allowed));
    assert!(!role_allowed("", &allowed));
}

#[test]
fn login_outcomes_follow_the_store_and_the_password_check() {
    assert!(matches!(login_outcome(true, true, true), LoginDecision::Accept));
    assert!(matches!(login_outcome(false, true, true), LoginDecision::WrongCredentials));
    assert!(matches!(login_outcome(true, false, true), LoginDecision::WrongCredentials));
    assert!(matches!(login_outcome(true, true, false), LoginDecision::Disabled));
}

#[test]
fn csrf_accepts_only_the_expected_token() {
    assert!(csrf_allows(Some("secure-static-token")));
    assert!(!csrf_allows(Some("some-other-token")));
    assert!(!csrf_allows(None));
}

#[test]
fn protocol_header_values_split_and_trim() {
    let p = SecWebSocketProtocol::decode("token-abc, chat, v2 ");
    assert_eq!(p.0, vec!["token-abc", "chat", "v2"]);
    assert_eq!(p.first().as_deref(), Some("token-abc"));
    assert_eq!(p.encode(), "token-abc, chat, v2");

    let single = SecWebSocketProtocol::decode("just-one");
    assert_eq!(single.0, vec!["just-one"]);

    let empty = SecWebSocketProtocol::decode("");
    assert_eq!(empty.0, vec![""]);
    assert_eq!(empty.first().as_deref(), Some(""));
    assert_eq!(SecWebSocketProtocol(Vec::new()).first(), None);
}

#[test]
fn status_and_priority_spellings_round_trip() {
    for s in [TicketStatus::Open, TicketStatus::InProgress, TicketStatus::Closed] {
        assert_eq!(TicketStatus::parse(s.as_str()), Some(s));
    }
    for p in [TicketPriority::Low, TicketPriority::Medium, TicketPriority::High] {
        assert_eq!(TicketPriority::parse(p.as_str()), Some(p));
    }
    assert_eq!(TicketStatus::parse("open"), None);
    assert_eq!(TicketPriority::parse("URGENT"), None);
    assert_eq!(priority_or_default(None), TicketPriority::Medium);
    assert_eq!(priority_or_default(Some(TicketPriority::High)), TicketPriority::High);
}

fn request(subject: &str, description: Option<&str>, email: &str) -> CreateTicketRequest {
    CreateTicketRequest {
        subject: String::from(subject),
        description: description.map(String::from),
        priority: None,
        customer_email: String::from(email),
    }
}

#[test]
fn create_ticket_requests_are_validated() {
    assert!(validate_create_ticket(&request("Printer broken", None, "a@b.com")));
    assert!(!validate_create_ticket(&request("ab", None, "a@b.com")));
    assert!(!validate_create_ticket(&request("Printer broken", None, "not-an-email")));
    assert!(!validate_create_ticket(&request("Printer broken", None, "")));
    let long = "x".repeat(501);
    assert!(!validate_create_ticket(&request("Printer broken", Some(&long), "a@b.com")));
    let ok = "x".repeat(500);
    assert!(validate_create_ticket(&request("Printer broken", Some(&ok), "a@b.com")));
    // the library's check answers as the validator crate answers
    for email in ["a@b.com", "not-an-email", "", "user+tag@sub.example.org", "a@b"] {
        assert_eq!(
            validate_create_ticket(&request("Printer broken", None, email)),
            email.validate_email(),
            "differs on {:?}",
            email
        );
    }
}

fn ticket(customer_email: Option<&str>, assigned_to: Option<u128>) -> Ticket {
    Ticket {
        id: TicketId(1),
        subject: String::from("s"),
        description: String::from("d"),
        status: TicketStatus::Open,
        priority: TicketPriority::Low,
        assigned_to: assigned_to.map(UserId),
        created_at: None,
        updated_at: None,
        customer_email: customer_email.map(String::from),
        user_id: None,
    }
}

fn claims(role: &str, email: &str, sub: u128) -> Claims {
    Claims {
        sub: UserId(sub),
        email: String::from(email),
        role: String::from(role),
        exp: 2000000000,
        iat: 1000000000,
    }
}

#[test]
fn ticket_reads_follow_the_access_rules() {
    let t = ticket(Some("c@e.com"), Some(9));
    assert!(can_view_ticket(&claims("user", "c@e.com", 1), &t));
    assert!(!can_view_ticket(&claims("user", "other@e.com", 1), &t));
    assert!(can_view_ticket(&claims("agent", "a@e.com", 9), &t));
    assert!(!can_view_ticket(&claims("agent", "a@e.com", 8), &t));
    assert!(can_view_ticket(&claims("admin", "x@e.com", 2), &t));
    assert!(!can_view_ticket(&claims("intern", "x@e.com", 2), &t));
    assert!(!can_view_ticket(&claims("user", "c@e.com", 1), &ticket(None, None)));
}

#[test]
fn agent_routes_admit_only_the_named_agent() {
    assert!(matches!(
        agent_route_access(&claims("agent", "a@e.com", 5), UserId(5)),
        AgentRouteAccess::Allowed
    ));
    assert!(matches!(
        agent_route_access(&claims("agent", "a@e.com", 5), UserId(6)),
        AgentRouteAccess::WrongAgent
    ));
    assert!(matches!(
        agent_route_access(&claims("admin", "a@e.com", 5), UserId(5)),
        AgentRouteAccess::WrongRole
    ));
}
