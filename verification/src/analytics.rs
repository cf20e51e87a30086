//! Ticket counts for the report endpoints.

use vstd::prelude::*;
use vstd::string::*;

use crate::tickets::{status_name, TicketStatus};

verus! {

/// The counters of the ticket summary. The status set has no resolved
/// state, so that counter is always zero.
pub struct TicketStats {
    pub total: i64,
    pub open: i64,
    pub in_progress: i64,
    pub resolved: i64,
    pub closed: i64,
}

/// The counters of the ticket overview report.
pub struct TicketOverview {
    pub total: i64,
    pub open: i64,
    pub closed: i64,
    pub in_progress: i64,
}

/// One row of the per-status report: a status (by its wire spelling) and
/// how many tickets hold it.
pub struct TicketStatusCount {
    pub status: String,
    pub count: i64,
}

/// How many of the statuses in `s` equal `t`.
pub open spec fn count_status(s: Seq<TicketStatus>, t: TicketStatus) -> int
    decreases s.len(),
{
    if s.len() == 0 {
        0
    } else {
        (if s[0] == t {
            1int
        } else {
            0int
        }) + count_status(s.drop_first(), t)
    }
}

/// The count is between zero and the length.
pub proof fn lemma_count_status_bounds(s: Seq<TicketStatus>, t: TicketStatus)
    ensures
        0 <= count_status(s, t) <= s.len(),
    decreases s.len(),
{
    if s.len() > 0 {
        lemma_count_status_bounds(s.drop_first(), t);
    }
}

/// Count every status in one pass.
fn count_all(statuses: &Vec<TicketStatus>) -> (r: (i64, i64, i64))
    requires
        statuses@.len() <= i64::MAX,
    ensures
        r.0 == count_status(statuses@, TicketStatus::Open),
        r.1 == count_status(statuses@, TicketStatus::InProgress),
        r.2 == count_status(statuses@, TicketStatus::Closed),
{
    let n = statuses.len();
    let mut open: i64 = 0;
    let mut in_progress: i64 = 0;
    let mut closed: i64 = 0;
    let mut i: usize = 0;
    proof {
        assert(statuses@.skip(0) =~= statuses@);
    }
    while i < n
        invariant
            i <= n,
            n == statuses@.len(),
            n <= i64::MAX,
            0 <= open + in_progress + closed <= i,
            0 <= open,
            0 <= in_progress,
            0 <= closed,
            open + count_status(statuses@.skip(i as int), TicketStatus::Open) == count_status(
                statuses@,
                TicketStatus::Open,
            ),
            in_progress + count_status(statuses@.skip(i as int), TicketStatus::InProgress)
                == count_status(statuses@, TicketStatus::InProgress),
            closed + count_status(statuses@.skip(i as int), TicketStatus::Closed) == count_status(
                statuses@,
                TicketStatus::Closed,
            ),
        decreases n - i,
    {
        proof {
            assert(statuses@.skip(i as int)[0] == statuses@[i as int]);
            assert(statuses@.skip(i as int).drop_first() =~= statuses@.skip(i as int + 1));
            lemma_count_status_bounds(statuses@.skip(i as int + 1), TicketStatus::Open);
            lemma_count_status_bounds(statuses@.skip(i as int + 1), TicketStatus::InProgress);
            lemma_count_status_bounds(statuses@.skip(i as int + 1), TicketStatus::Closed);
        }
        match statuses[i] {
            TicketStatus::Open => {
                open = open + 1;
            },
            TicketStatus::InProgress => {
                in_progress = in_progress + 1;
            },
            TicketStatus::Closed => {
                closed = closed + 1;
            },
        }
        i = i + 1;
    }
    proof {
        assert(statuses@.skip(n as int) =~= Seq::<TicketStatus>::empty());
    }
    (open, in_progress, closed)
}

/// The ticket summary over the statuses of every ticket in the store.
pub fn ticket_summary(statuses: &Vec<TicketStatus>) -> (r: TicketStats)
    requires
        statuses@.len() <= i64::MAX,
    ensures
        r.total == statuses@.len(),
        r.open == count_status(statuses@, TicketStatus::Open),
        r.in_progress == count_status(statuses@, TicketStatus::InProgress),
        r.closed == count_status(statuses@, TicketStatus::Closed),
        r.resolved == 0,
{
    let (open, in_progress, closed) = count_all(statuses);
    TicketStats { total: statuses.len() as i64, open, in_progress, resolved: 0, closed }
}

/// The overview report over the statuses of every ticket in the store.
pub fn get_ticket_overview(statuses: &Vec<TicketStatus>) -> (r: TicketOverview)
    requires
        statuses@.len() <= i64::MAX,
    ensures
        r.total == statuses@.len(),
        r.open == count_status(statuses@, TicketStatus::Open),
        r.closed == count_status(statuses@, TicketStatus::Closed),
        r.in_progress == count_status(statuses@, TicketStatus::InProgress),
{
    let (open, in_progress, closed) = count_all(statuses);
    TicketOverview { total: statuses.len() as i64, open, closed, in_progress }
}

/// An entry reports status `t` of the statuses `s`.
pub open spec fn entry_for(e: TicketStatusCount, s: Seq<TicketStatus>, t: TicketStatus) -> bool {
    e.status@ == status_name(t) && e.count == count_status(s, t)
}

/// Push a report row for `t` when any ticket holds it.
fn push_entry(
    out: &mut Vec<TicketStatusCount>,
    statuses: &Vec<TicketStatus>,
    t: TicketStatus,
    count: i64,
)
    requires
        count == count_status(statuses@, t),
    ensures
        count > 0 ==> {
            &&& final(out)@.len() == old(out)@.len() + 1
            &&& (forall|k: int| 0 <= k < old(out)@.len() ==> final(out)@[k] == old(out)@[k])
            &&& entry_for(final(out)@.last(), statuses@, t)
            &&& final(out)@.last().count == count
        },
        count <= 0 ==> final(out)@ == old(out)@,
{
    if count > 0 {
        let name = t.as_str();
        out.push(TicketStatusCount { status: String::from_str(name), count });
    }
}

/// The per-status report: one row for each status some ticket holds —
/// and no other row — carrying that status's true count, ordered by count
/// from the largest down, each status at most once.
pub fn get_ticket_status_count(statuses: &Vec<TicketStatus>) -> (r: Vec<TicketStatusCount>)
    requires
        statuses@.len() <= i64::MAX,
    ensures
        r@.len() <= 3,
        forall|k: int| 0 <= k < r@.len() - 1 ==> (#[trigger] r@[k]).count >= r@[k + 1].count,
        forall|k: int| 0 <= k < r@.len() ==> (#[trigger] r@[k]).count > 0,
        // every row reports one of the three statuses, with its true count
        forall|k: int| 0 <= k < r@.len() ==> {
            ||| entry_for(#[trigger] r@[k], statuses@, TicketStatus::Open)
            ||| entry_for(r@[k], statuses@, TicketStatus::InProgress)
            ||| entry_for(r@[k], statuses@, TicketStatus::Closed)
        },
        // no status is reported twice
        forall|k: int, l: int|
            0 <= k < r@.len() && 0 <= l < r@.len() && k != l ==> (#[trigger] r@[k]).status@ != (
            #[trigger] r@[l]).status@,
        count_status(statuses@, TicketStatus::Open) > 0 ==> exists|k: int|
            0 <= k < r@.len() && entry_for(#[trigger] r@[k], statuses@, TicketStatus::Open),
        count_status(statuses@, TicketStatus::InProgress) > 0 ==> exists|k: int|
            0 <= k < r@.len() && entry_for(#[trigger] r@[k], statuses@, TicketStatus::InProgress),
        count_status(statuses@, TicketStatus::Closed) > 0 ==> exists|k: int|
            0 <= k < r@.len() && entry_for(#[trigger] r@[k], statuses@, TicketStatus::Closed),
{
    proof {
        crate::tickets::lemma_status_names_distinct();
    }
    let (open, in_progress, closed) = count_all(statuses);
    let mut out: Vec<TicketStatusCount> = Vec::new();
    if open >= in_progress && in_progress >= closed {
        push_entry(&mut out, statuses, TicketStatus::Open, open);
        push_entry(&mut out, statuses, TicketStatus::InProgress, in_progress);
        push_entry(&mut out, statuses, TicketStatus::Closed, closed);
    } else if open >= closed && closed >= in_progress {
        push_entry(&mut out, statuses, TicketStatus::Open, open);
        push_entry(&mut out, statuses, TicketStatus::Closed, closed);
        push_entry(&mut out, statuses, TicketStatus::InProgress, in_progress);
    } else if in_progress >= open && open >= closed {
        push_entry(&mut out, statuses, TicketStatus::InProgress, in_progress);
        push_entry(&mut out, statuses, TicketStatus::Open, open);
        push_entry(&mut out, statuses, TicketStatus::Closed, closed);
    } else if in_progress >= closed && closed >= open {
        push_entry(&mut out, statuses, TicketStatus::InProgress, in_progress);
        push_entry(&mut out, statuses, TicketStatus::Closed, closed);
        push_entry(&mut out, statuses, TicketStatus::Open, open);
    } else if closed >= open && open >= in_progress {
        push_entry(&mut out, statuses, TicketStatus::Closed, closed);
        push_entry(&mut out, statuses, TicketStatus::Open, open);
        push_entry(&mut out, statuses, TicketStatus::InProgress, in_progress);
    } else {
        push_entry(&mut out, statuses, TicketStatus::Closed, closed);
        push_entry(&mut out, statuses, TicketStatus::InProgress, in_progress);
        push_entry(&mut out, statuses, TicketStatus::Open, open);
    }
    out
}

} // verus!
