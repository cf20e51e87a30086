use helpdesk_core::analytics::{get_ticket_overview, get_ticket_status_count, ticket_summary};
use helpdesk_core::tickets::TicketStatus;

fn sample() -> Vec<TicketStatus> {
    vec![
        TicketStatus::Open,
        TicketStatus::Closed,
        TicketStatus::Open,
        TicketStatus::InProgress,
        TicketStatus::Open,
        TicketStatus::Closed,
    ]
}

#[test]
fn the_summary_counts_every_status() {
    let stats = ticket_summary(&sample());
    assert_eq!(stats.total, 6);
    assert_eq!(stats.open, 3);
    assert_eq!(stats.in_progress, 1);
    assert_eq!(stats.closed, 2);
    assert_eq!(stats.resolved, 0);
}

#[test]
fn the_overview_counts_every_status() {
    let o = get_ticket_overview(&sample());
    assert_eq!((o.total, o.open, o.in_progress, o.closed), (6, 3, 1, 2));
    let empty = get_ticket_overview(&Vec::new());
    assert_eq!((empty.total, empty.open, empty.in_progress, empty.closed), (0, 0, 0, 0));
}

#[test]
fn the_status_report_is_sorted_and_complete() {
    let rows = get_ticket_status_count(&sample());
    assert_eq!(rows.len(), 3);
    assert_eq!(rows[0].status, "Open");
    assert_eq!(rows[0].count, 3);
    assert_eq!(rows[1].status, "Closed");
    assert_eq!(rows[1].count, 2);
    assert_eq!(rows[2].status, "InProgress");
    assert_eq!(rows[2].count, 1);
}

#[test]
fn the_status_report_drops_absent_statuses() {
    let rows = get_ticket_status_count(&vec![TicketStatus::InProgress, TicketStatus::InProgress]);
    assert_eq!(rows.len(), 1);
    assert_eq!(rows[0].status, "InProgress");
    assert_eq!(rows[0].count, 2);
    assert!(get_ticket_status_count(&Vec::new()).is_empty());
}
