use vmm_agent::tickets::{
    find_ticket, generate_ticket, remove_ticket, store_ticket, ticket_position, Ticket, TicketStore,
};

const PAYLOAD: &str = "{\"hostpcis\":[{\"address\":\"00:06.0\"}]}";

#[test]
fn ticket_id_is_sha1_of_vm_id_and_payload() {
    assert_eq!(
        generate_ticket(5, PAYLOAD.to_string()),
        "99224dd4f4fe2bf9c902798ef567a7cd03819d3a"
    );
    assert_eq!(generate_ticket(-3, "abc".to_string()), "24cffe14476b0508be1066043cf17ce7678c7a9d");
}

#[test]
fn different_vm_gives_different_id() {
    assert_ne!(generate_ticket(5, PAYLOAD.to_string()), generate_ticket(6, PAYLOAD.to_string()));
}

#[test]
fn identical_submissions_share_one_job() {
    let mut store = TicketStore::new();
    let (id1, spawn1) = store.submit(5, PAYLOAD.to_string());
    let (id2, spawn2) = store.submit(5, PAYLOAD.to_string());
    assert_eq!(id1, id2);
    assert_eq!(id1, "99224dd4f4fe2bf9c902798ef567a7cd03819d3a");
    assert!(spawn1);
    assert!(!spawn2);
    assert_eq!(store.in_flight.len(), 1);
}

#[test]
fn pending_ticket_polls_as_not_ready() {
    let mut store = TicketStore::new();
    let (id, _) = store.submit(1, "{}".to_string());
    assert_eq!(store.consume(&id), None);
    assert!(store.has_ticket(&id));
}

#[test]
fn consume_is_destructive() {
    let mut store = TicketStore::new();
    let (id, spawn) = store.submit(5, PAYLOAD.to_string());
    assert!(spawn);
    store.complete(5, &id, vec!["{\"id\":\"_vfio3\"}".to_string()]);
    assert!(store.in_flight.is_empty());
    assert_eq!(store.consume(&id), Some(vec!["{\"id\":\"_vfio3\"}".to_string()]));
    assert_eq!(store.consume(&id), None);
    assert!(!store.has_ticket(&id));
}

#[test]
fn completed_unpolled_ticket_blocks_new_job() {
    let mut store = TicketStore::new();
    let (id, _) = store.submit(2, "x".to_string());
    store.complete(2, &id, vec![]);
    let (_, spawn) = store.submit(2, "x".to_string());
    assert!(!spawn);
    store.consume(&id);
    let (_, spawn) = store.submit(2, "x".to_string());
    assert!(spawn);
}

#[test]
fn consume_unknown_id() {
    let mut store = TicketStore::new();
    assert_eq!(store.consume("nope"), None);
    assert!(store.submit_with_id("abc".to_string()));
    assert!(!store.submit_with_id("abc".to_string()));
}

#[test]
fn list_functions() {
    let mut list: Vec<Ticket> = Vec::new();
    store_ticket(1, "a", vec!["r1".to_string()], &mut list);
    store_ticket(2, "b", vec![], &mut list);
    store_ticket(3, "a", vec!["r3".to_string()], &mut list);
    assert_eq!(ticket_position("b", &list), Some(1));
    assert_eq!(ticket_position("z", &list), None);
    let found = find_ticket("a", &list).unwrap();
    assert_eq!(found.vm_id, 1);
    assert_eq!(found.pcis_detail, vec!["r1".to_string()]);
    assert!(find_ticket("z", &list).is_none());
    assert!(remove_ticket("a", &mut list));
    assert_eq!(list.len(), 1);
    assert_eq!(list[0].id, "b");
    assert!(!remove_ticket("a", &mut list));
}
