use vmm_agent::registry::{
    begin_start, begin_stop, find_free_slot, get_slot, get_vm_status, get_vms_info,
    i16_to_usize, init_vm_vec, mark_vm_stop, modify_slot, status_label, VmStatus, BOOTING,
    DEFAULT_GRACE, FREE, MAXVM, REQUESTED, RUNNING, STOPPED, STOPPING, UNKNOWN,
};

fn fresh() -> Vec<VmStatus> {
    let mut v = Vec::new();
    init_vm_vec(&mut v);
    v
}

#[test]
fn init_builds_free_table() {
    let v = fresh();
    assert_eq!(v.len(), MAXVM);
    assert_eq!(MAXVM, 253);
    for s in &v {
        assert_eq!(s.status, FREE);
        assert_eq!(s.process_id, "");
        assert_eq!(s.lost_signal_count, DEFAULT_GRACE);
    }
}

#[test]
fn first_allocations_are_zero_then_one() {
    let mut v = fresh();
    assert_eq!(find_free_slot(&mut v), 0);
    assert_eq!(find_free_slot(&mut v), 1);
    assert_eq!(v[0].status, REQUESTED);
    assert_eq!(v[1].status, REQUESTED);
    assert_eq!(v[2].status, FREE);
}

#[test]
fn allocation_254th_fails() {
    let mut v = fresh();
    for k in 0..MAXVM {
        assert_eq!(find_free_slot(&mut v), k as i16);
    }
    assert_eq!(find_free_slot(&mut v), -1);
    assert_eq!(find_free_slot(&mut v), -1);
}

#[test]
fn allocation_takes_lowest_free_index() {
    let mut v = fresh();
    for _ in 0..5 {
        find_free_slot(&mut v);
    }
    v[2].status = FREE;
    assert_eq!(find_free_slot(&mut v), 2);
    assert_eq!(find_free_slot(&mut v), 5);
}

#[test]
fn stopped_slot_is_not_reclaimed() {
    let mut v = fresh();
    assert_eq!(find_free_slot(&mut v), 0);
    mark_vm_stop(&mut v, 0);
    assert_eq!(v[0].status, STOPPED);
    assert_eq!(find_free_slot(&mut v), 1);
}

#[test]
fn modify_slot_sets_handle_and_status() {
    let mut v = fresh();
    v[4].lost_signal_count = 1;
    modify_slot(&mut v, 4, "4242", RUNNING);
    assert_eq!(v[4].process_id, "4242");
    assert_eq!(v[4].status, RUNNING);
    assert_eq!(v[4].lost_signal_count, 1);
    assert_eq!(v[3].status, FREE);
}

#[test]
fn i16_to_usize_clamps_negative() {
    assert_eq!(i16_to_usize(-5), 0);
    assert_eq!(i16_to_usize(0), 0);
    assert_eq!(i16_to_usize(17), 17);
}

#[test]
fn get_slot_is_a_copy() {
    let mut v = fresh();
    modify_slot(&mut v, 7, "99", BOOTING);
    let snap = get_slot(&v, 7);
    modify_slot(&mut v, 7, "", RUNNING);
    assert_eq!(snap.process_id, "99");
    assert_eq!(snap.status, BOOTING);
}

#[test]
fn mark_vm_stop_resets_slot() {
    let mut v = fresh();
    modify_slot(&mut v, 3, "1000", UNKNOWN);
    v[3].lost_signal_count = 0;
    mark_vm_stop(&mut v, 3);
    assert_eq!(v[3].status, STOPPED);
    assert_eq!(v[3].process_id, "");
    assert_eq!(v[3].lost_signal_count, 3);
}

#[test]
fn start_marks_booting() {
    let mut v = fresh();
    let id = find_free_slot(&mut v);
    begin_start(&mut v, id as usize);
    assert_eq!(v[0].status, BOOTING);
}

#[test]
fn stop_returns_handle_then_marks_stopped() {
    let mut v = fresh();
    modify_slot(&mut v, 0, "321", RUNNING);
    let h = begin_stop(&mut v, 0);
    assert_eq!(h, Some("321".to_string()));
    assert_eq!(v[0].status, STOPPING);
    // whatever the kill signal did, the stop marks the slot stopped at once
    mark_vm_stop(&mut v, 0);
    assert_eq!(v[0].status, STOPPED);
    assert_eq!(v[0].process_id, "");
    assert_eq!(v[0].lost_signal_count, DEFAULT_GRACE);
}

#[test]
fn stop_without_handle_has_nothing_to_signal() {
    let mut v = fresh();
    modify_slot(&mut v, 1, "", UNKNOWN);
    assert_eq!(begin_stop(&mut v, 1), None);
    assert_eq!(v[1].status, STOPPING);
    mark_vm_stop(&mut v, 1);
    assert_eq!(v[1].status, STOPPED);
}

#[test]
fn deleted_slot_stays_stopped_and_is_not_reallocated() {
    let mut v = fresh();
    for _ in 0..MAXVM {
        find_free_slot(&mut v);
    }
    modify_slot(&mut v, 4, "900", RUNNING);
    begin_stop(&mut v, 4);
    mark_vm_stop(&mut v, 4);
    assert_eq!(v[4].status, STOPPED);
    assert_eq!(find_free_slot(&mut v), -1);
}

#[test]
fn status_labels() {
    assert_eq!(status_label(0), Some("Stopped"));
    assert_eq!(status_label(2), Some("Running"));
    assert_eq!(status_label(7), Some("Migrating"));
    assert_eq!(status_label(-1), None);
    assert_eq!(status_label(8), None);
}

#[test]
fn status_query_reports_not_found_for_free_slot() {
    let mut v = fresh();
    assert_eq!(get_vm_status(&v, 0), "Not Found");
    modify_slot(&mut v, 0, "", UNKNOWN);
    assert_eq!(get_vm_status(&v, 0), "Unknown");
}

#[test]
fn listing_skips_free_slots() {
    let mut v = fresh();
    modify_slot(&mut v, 2, "", RUNNING);
    modify_slot(&mut v, 9, "", BOOTING);
    let list = get_vms_info(&v);
    assert_eq!(list.len(), 2);
    assert_eq!(list[0].vm_id, 2);
    assert_eq!(list[0].status, "Running");
    assert_eq!(list[1].vm_id, 9);
    assert_eq!(list[1].status, "Booting");
}

#[test]
fn slot_index_accepts_only_table_indices() {
    assert_eq!(vmm_agent::registry::slot_index(0), Some(0));
    assert_eq!(vmm_agent::registry::slot_index(252), Some(252));
    assert_eq!(vmm_agent::registry::slot_index(253), None);
    assert_eq!(vmm_agent::registry::slot_index(-1), None);
}
