use vmm_agent::monitor::{gateway_address, handle_needed, monitor_slot, probe_needed, vm_address};
use vmm_agent::registry::{
    init_vm_vec, modify_slot, VmStatus, BOOTING, FREE, RUNNING, STOPPED, STOPPING, UNKNOWN,
};

fn monitored_table() -> Vec<VmStatus> {
    let mut v = Vec::new();
    init_vm_vec(&mut v);
    v
}

#[test]
fn grace_two_needs_three_failed_cycles() {
    let mut v = monitored_table();
    modify_slot(&mut v, 0, "77", UNKNOWN);
    v[0].lost_signal_count = 2;
    monitor_slot(&mut v, 0, false, None);
    assert_eq!(v[0].status, UNKNOWN);
    assert_eq!(v[0].lost_signal_count, 1);
    monitor_slot(&mut v, 0, false, None);
    assert_eq!(v[0].status, UNKNOWN);
    assert_eq!(v[0].lost_signal_count, 0);
    monitor_slot(&mut v, 0, false, None);
    assert_eq!(v[0].status, STOPPED);
    assert_eq!(v[0].lost_signal_count, 3);
    assert_eq!(v[0].process_id, "");
}

#[test]
fn grace_zero_stops_in_one_cycle() {
    let mut v = monitored_table();
    modify_slot(&mut v, 5, "1", UNKNOWN);
    v[5].lost_signal_count = 0;
    monitor_slot(&mut v, 5, false, None);
    assert_eq!(v[5].status, STOPPED);
}

#[test]
fn running_vm_that_stops_answering_becomes_unknown() {
    let mut v = monitored_table();
    modify_slot(&mut v, 1, "10", RUNNING);
    monitor_slot(&mut v, 1, false, None);
    assert_eq!(v[1].status, UNKNOWN);
    assert_eq!(v[1].lost_signal_count, 2);
}

#[test]
fn booting_vm_is_not_penalized() {
    let mut v = monitored_table();
    modify_slot(&mut v, 1, "", BOOTING);
    monitor_slot(&mut v, 1, false, None);
    assert_eq!(v[1].status, BOOTING);
    assert_eq!(v[1].lost_signal_count, 3);
}

#[test]
fn booting_vm_that_answers_runs_and_gets_handle() {
    let mut v = monitored_table();
    modify_slot(&mut v, 1, "", BOOTING);
    assert!(probe_needed(&v, 1));
    assert!(handle_needed(&v, 1));
    monitor_slot(&mut v, 1, true, Some("555".to_string()));
    assert_eq!(v[1].status, RUNNING);
    assert_eq!(v[1].process_id, "555");
}

#[test]
fn known_handle_is_kept() {
    let mut v = monitored_table();
    modify_slot(&mut v, 1, "12", UNKNOWN);
    assert!(!handle_needed(&v, 1));
    monitor_slot(&mut v, 1, true, Some("99".to_string()));
    assert_eq!(v[1].status, RUNNING);
    assert_eq!(v[1].process_id, "12");
}

#[test]
fn stopping_vm_spends_grace() {
    let mut v = monitored_table();
    modify_slot(&mut v, 2, "8", STOPPING);
    monitor_slot(&mut v, 2, false, None);
    assert_eq!(v[2].status, UNKNOWN);
    assert_eq!(v[2].lost_signal_count, 2);
}

#[test]
fn free_and_stopped_slots_are_not_probed() {
    let mut v = monitored_table();
    assert!(!probe_needed(&v, 0));
    modify_slot(&mut v, 0, "", STOPPED);
    assert!(!probe_needed(&v, 0));
    monitor_slot(&mut v, 0, true, None);
    assert_eq!(v[0].status, STOPPED);
    assert_eq!(v[1].status, FREE);
}

#[test]
fn subnet_addresses() {
    assert_eq!(vm_address(0), "192.168.0.2");
    assert_eq!(vm_address(42), "192.168.42.2");
    assert_eq!(gateway_address(252), "192.168.252.1");
}
