//! Tickets: statuses, priorities, request validation and access rules.

use vstd::prelude::*;
use vstd::string::*;

use validator::ValidateEmail;

use crate::auth::Claims;
use crate::ids::UserId;

verus! {

/// The lifecycle states a ticket passes through.
#[derive(Clone, Copy, PartialEq, Eq, Structural, Debug)]
pub enum TicketStatus {
    Open,
    InProgress,
    Closed,
}

/// How urgent a ticket is.
#[derive(Clone, Copy, PartialEq, Eq, Structural, Debug)]
pub enum TicketPriority {
    Low,
    Medium,
    High,
}

/// The wire spelling of a status.
pub open spec fn status_name(s: TicketStatus) -> Seq<char> {
    match s {
        TicketStatus::Open => "Open"@,
        TicketStatus::InProgress => "InProgress"@,
        TicketStatus::Closed => "Closed"@,
    }
}

/// The wire spelling of a priority.
pub open spec fn priority_name(p: TicketPriority) -> Seq<char> {
    match p {
        TicketPriority::Low => "Low"@,
        TicketPriority::Medium => "Medium"@,
        TicketPriority::High => "High"@,
    }
}

/// The status a wire spelling names.
pub open spec fn parse_status(t: Seq<char>) -> Option<TicketStatus> {
    if t == "Open"@ {
        Some(TicketStatus::Open)
    } else if t == "InProgress"@ {
        Some(TicketStatus::InProgress)
    } else if t == "Closed"@ {
        Some(TicketStatus::Closed)
    } else {
        None
    }
}

/// The priority a wire spelling names.
pub open spec fn parse_priority(t: Seq<char>) -> Option<TicketPriority> {
    if t == "Low"@ {
        Some(TicketPriority::Low)
    } else if t == "Medium"@ {
        Some(TicketPriority::Medium)
    } else if t == "High"@ {
        Some(TicketPriority::High)
    } else {
        None
    }
}

impl TicketStatus {
    /// The spelling this status travels under.
    pub fn as_str(&self) -> (r: &'static str)
        ensures
            r@ == status_name(*self),
    {
        match self {
            TicketStatus::Open => "Open",
            TicketStatus::InProgress => "InProgress",
            TicketStatus::Closed => "Closed",
        }
    }

    /// The status a spelling names, if any.
    pub fn parse(t: &str) -> (r: Option<TicketStatus>)
        ensures
            r == parse_status(t@),
    {
        if crate::auth::str_eq(t, "Open") {
            Some(TicketStatus::Open)
        } else if crate::auth::str_eq(t, "InProgress") {
            Some(TicketStatus::InProgress)
        } else if crate::auth::str_eq(t, "Closed") {
            Some(TicketStatus::Closed)
        } else {
            None
        }
    }
}

impl TicketPriority {
    /// The spelling this priority travels under.
    pub fn as_str(&self) -> (r: &'static str)
        ensures
            r@ == priority_name(*self),
    {
        match self {
            TicketPriority::Low => "Low",
            TicketPriority::Medium => "Medium",
            TicketPriority::High => "High",
        }
    }

    /// The priority a spelling names, if any.
    pub fn parse(t: &str) -> (r: Option<TicketPriority>)
        ensures
            r == parse_priority(t@),
    {
        if crate::auth::str_eq(t, "Low") {
            Some(TicketPriority::Low)
        } else if crate::auth::str_eq(t, "Medium") {
            Some(TicketPriority::Medium)
        } else if crate::auth::str_eq(t, "High") {
            Some(TicketPriority::High)
        } else {
            None
        }
    }
}

/// A status round-trips through its spelling.
pub proof fn law_status_spelling_round_trip(s: TicketStatus)
    ensures
        parse_status(status_name(s)) == Some(s),
{
    reveal_strlit("Open");
    reveal_strlit("InProgress");
    reveal_strlit("Closed");
    assert("Open"@.len() == 4 && "InProgress"@.len() == 10 && "Closed"@.len() == 6);
    match s {
        TicketStatus::Open => {
            assert(parse_status("Open"@) == Some(TicketStatus::Open));
        },
        TicketStatus::InProgress => {
            assert(parse_status("InProgress"@) == Some(TicketStatus::InProgress));
        },
        TicketStatus::Closed => {
            assert("Closed"@ != "Open"@ && "Closed"@ != "InProgress"@);
            assert(parse_status("Closed"@) == Some(TicketStatus::Closed));
        },
    }
}

/// A priority round-trips through its spelling.
pub proof fn law_priority_spelling_round_trip(p: TicketPriority)
    ensures
        parse_priority(priority_name(p)) == Some(p),
{
    reveal_strlit("Low");
    reveal_strlit("Medium");
    reveal_strlit("High");
    assert("Low"@.len() == 3 && "Medium"@.len() == 6 && "High"@.len() == 4);
    match p {
        TicketPriority::Low => {
            assert(parse_priority("Low"@) == Some(TicketPriority::Low));
        },
        TicketPriority::Medium => {
            assert(parse_priority("Medium"@) == Some(TicketPriority::Medium));
        },
        TicketPriority::High => {
            assert("High"@ != "Low"@ && "High"@ != "Medium"@);
            assert(parse_priority("High"@) == Some(TicketPriority::High));
        },
    }
}

/// The three status spellings are pairwise different.
pub proof fn lemma_status_names_distinct()
    ensures
        status_name(TicketStatus::Open) != status_name(TicketStatus::InProgress),
        status_name(TicketStatus::Open) != status_name(TicketStatus::Closed),
        status_name(TicketStatus::InProgress) != status_name(TicketStatus::Closed),
{
    reveal_strlit("Open");
    reveal_strlit("InProgress");
    reveal_strlit("Closed");
    assert("Open"@.len() == 4 && "InProgress"@.len() == 10 && "Closed"@.len() == 6);
}

/// A ticket as the store holds it; timestamps are carried as already
/// rendered text.
pub struct Ticket {
    pub id: crate::ids::TicketId,
    pub subject: String,
    pub description: String,
    pub status: TicketStatus,
    pub priority: TicketPriority,
    pub assigned_to: Option<UserId>,
    pub created_at: Option<String>,
    pub updated_at: Option<String>,
    pub customer_email: Option<String>,
    pub user_id: Option<UserId>,
}

/// What a new ticket is created from.
pub struct CreateTicketInput {
    pub subject: String,
    pub description: String,
    pub priority: TicketPriority,
    pub customer_email: String,
}

/// A status change.
pub struct UpdateTicketInput {
    pub status: TicketStatus,
}

/// A create-ticket request as the public API receives it.
pub struct CreateTicketRequest {
    pub subject: String,
    pub description: Option<String>,
    pub priority: Option<TicketPriority>,
    pub customer_email: String,
}

/// An update-ticket request as the public API receives it.
pub struct UpdateTicketRequest {
    pub subject: Option<String>,
    pub description: Option<String>,
    pub status: Option<TicketStatus>,
    pub priority: Option<TicketPriority>,
    pub assigned_to: Option<UserId>,
}

/// Whether a string passes the e-mail shape check. Named after what the
/// validator returns: a function of the string alone.
pub uninterp spec fn email_ok(s: Seq<char>) -> bool;

/// Relies on validator's `ValidateEmail` for `&str`: the HTML5 e-mail
/// shape check, a function of the string alone. An empty string, or one
/// without `@`, never passes.
#[verifier::external_body]
fn email_is_valid(s: &str) -> (r: bool)
    ensures
        r == email_ok(s@),
        s@.len() == 0 ==> !r,
        !s@.contains('@') ==> !r,
{
    s.validate_email()
}

/// The requirements on a create-ticket request: a subject of at least
/// three characters, a description of at most five hundred, and a
/// customer address of e-mail shape.
pub open spec fn create_ticket_request_ok(r: CreateTicketRequest) -> bool {
    &&& r.subject@.len() >= 3
    &&& match r.description {
        Some(d) => d@.len() <= 500,
        None => true,
    }
    &&& email_ok(r.customer_email@)
}

/// Validate a create-ticket request; a request that fails is rejected
/// before anything else happens to it.
pub fn validate_create_ticket(r: &CreateTicketRequest) -> (ok: bool)
    ensures
        ok == create_ticket_request_ok(*r),
{
    if r.subject.as_str().unicode_len() < 3 {
        return false;
    }
    match &r.description {
        Some(d) => {
            if d.as_str().unicode_len() > 500 {
                return false;
            }
        },
        None => {},
    }
    email_is_valid(r.customer_email.as_str())
}

/// The requirements on an update-ticket request: the same bounds as at
/// creation, each applying only to a field that is present.
pub open spec fn update_ticket_request_ok(r: UpdateTicketRequest) -> bool {
    &&& match r.subject {
        Some(s) => s@.len() >= 3,
        None => true,
    }
    &&& match r.description {
        Some(d) => d@.len() <= 500,
        None => true,
    }
}

/// Validate an update-ticket request.
pub fn validate_update_ticket(r: &UpdateTicketRequest) -> (ok: bool)
    ensures
        ok == update_ticket_request_ok(*r),
{
    match &r.subject {
        Some(s) => {
            if s.as_str().unicode_len() < 3 {
                return false;
            }
        },
        None => {},
    }
    match &r.description {
        Some(d) => {
            if d.as_str().unicode_len() > 500 {
                return false;
            }
        },
        None => {},
    }
    true
}

/// The priority a request settles on: what it asked for, or the middle
/// one.
pub fn priority_or_default(p: Option<TicketPriority>) -> (r: TicketPriority)
    ensures
        match p {
            Some(q) => r == q,
            None => r == TicketPriority::Medium,
        },
{
    match p {
        Some(q) => q,
        None => TicketPriority::Medium,
    }
}

/// Who may read a ticket: a customer only their own (by the e-mail on the
/// ticket), an agent only one assigned to them, an admin any, and any
/// other role none.
pub open spec fn view_allowed(role: Seq<char>, email: Seq<char>, sub: UserId, t: Ticket) -> bool {
    if role == "user"@ {
        match t.customer_email {
            Some(e) => e@ == email,
            None => false,
        }
    } else if role == "agent"@ {
        match t.assigned_to {
            Some(a) => a == sub,
            None => false,
        }
    } else {
        role == "admin"@
    }
}

/// Decide whether the authenticated caller may read this ticket.
pub fn can_view_ticket(claims: &Claims, t: &Ticket) -> (r: bool)
    ensures
        r == view_allowed(claims.role@, claims.email@, claims.sub, *t),
{
    if crate::auth::str_eq(claims.role.as_str(), "user") {
        match &t.customer_email {
            Some(e) => crate::auth::str_eq(e.as_str(), claims.email.as_str()),
            None => false,
        }
    } else if crate::auth::str_eq(claims.role.as_str(), "agent") {
        match &t.assigned_to {
            Some(a) => a.0 == claims.sub.0,
            None => false,
        }
    } else {
        crate::auth::str_eq(claims.role.as_str(), "admin")
    }
}

/// How the agent-ticket route answers before any work: only an agent, and
/// only for its own identifier.
pub enum AgentRouteAccess {
    /// The caller is the agent the route names.
    Allowed,
    /// The caller is no agent.
    WrongRole,
    /// The caller is an agent but not the one the route names.
    WrongAgent,
}

/// Decide the agent-ticket route's guard.
pub fn agent_route_access(claims: &Claims, agent_id: UserId) -> (r: AgentRouteAccess)
    ensures
        r is Allowed <==> (claims.role@ == "agent"@ && claims.sub == agent_id),
        r is WrongRole <==> claims.role@ != "agent"@,
        r is WrongAgent <==> (claims.role@ == "agent"@ && claims.sub != agent_id),
{
    if !crate::auth::str_eq(claims.role.as_str(), "agent") {
        AgentRouteAccess::WrongRole
    } else if claims.sub.0 == agent_id.0 {
        AgentRouteAccess::Allowed
    } else {
        AgentRouteAccess::WrongAgent
    }
}

} // verus!
