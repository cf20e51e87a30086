use helpdesk_core::ids::UserId;
use helpdesk_core::notifications::recipients;

#[test]
fn unknown_addressees_are_skipped_in_order() {
    let targets = vec![Some(UserId(3)), None, Some(UserId(1)), None, Some(UserId(2))];
    assert_eq!(recipients(&targets), vec![UserId(3), UserId(1), UserId(2)]);
    assert!(recipients(&vec![None, None]).is_empty());
    assert!(recipients(&Vec::new()).is_empty());
}
