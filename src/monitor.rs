use vstd::prelude::*;

use crate::registry::{
    slots, stopped_slot, with_status, SlotView, VmStatus, BOOTING, FREE, RUNNING, STOPPED,
    STOPPING, UNKNOWN, DEFAULT_GRACE,
};
use crate::text::{decimal_digits, decimal_text};

verus! {

/// Whether the monitor probes a slot in this state: only booted VMs (status above 0).
pub open spec fn needs_probe(s: SlotView) -> bool {
    s.status > 0
}

/// The slot after the probe part of a monitor cycle. A reachable VM becomes
/// `RUNNING` and, if its handle is empty, takes the handle found for it (if any);
/// an unreachable one becomes `UNKNOWN` unless it is still `BOOTING`.
pub open spec fn after_probe(s: SlotView, reachable: bool, found: Option<Seq<char>>) -> SlotView {
    if !needs_probe(s) {
        s
    } else if reachable {
        SlotView {
            status: RUNNING as int,
            process_id: if s.process_id.len() == 0 && found is Some { found->0 } else { s.process_id },
            ..s
        }
    } else if s.status != BOOTING {
        with_status(s, UNKNOWN as int)
    } else {
        s
    }
}

/// The grace part of a monitor cycle: an `UNKNOWN` or `STOPPING` slot spends one
/// unit of grace, or is marked stopped when none is left.
pub open spec fn after_grace(s: SlotView) -> SlotView {
    if s.status == UNKNOWN || s.status == STOPPING {
        if s.grace > 0 {
            SlotView { grace: (s.grace - 1) as nat, ..s }
        } else {
            stopped_slot()
        }
    } else {
        s
    }
}

/// One monitor cycle on one slot.
pub open spec fn monitor_step(s: SlotView, reachable: bool, found: Option<Seq<char>>) -> SlotView {
    after_grace(after_probe(s, reachable, found))
}

pub open spec fn opt_view(o: Option<String>) -> Option<Seq<char>> {
    match o {
        Some(h) => Some(h@),
        None => None,
    }
}

/// Whether the monitor has to probe slot `vm_id` in this cycle.
pub fn probe_needed(vm_vec: &Vec<VmStatus>, vm_id: usize) -> (r: bool)
    requires
        vm_id < vm_vec.len(),
    ensures
        r == needs_probe(vm_vec@[vm_id as int]@),
{
    vm_vec[vm_id].status > 0
}

/// Whether a successful probe of slot `vm_id` should be followed by a lookup of
/// the VM's process handle, which happens when none is known yet.
pub fn handle_needed(vm_vec: &Vec<VmStatus>, vm_id: usize) -> (r: bool)
    requires
        vm_id < vm_vec.len(),
    ensures
        r == (vm_vec@[vm_id as int].process_id@.len() == 0),
{
    vm_vec[vm_id].process_id.unicode_len() == 0
}

/// Applies one monitor cycle to slot `vm_id`, given whether the VM answered the
/// probe and the handle found for it.
pub fn monitor_slot(vm_vec: &mut Vec<VmStatus>, vm_id: usize, reachable: bool, found: Option<String>)
    requires
        vm_id < old(vm_vec).len(),
    ensures
        final(vm_vec)@.len() == old(vm_vec)@.len(),
        slots(final(vm_vec)@) == slots(old(vm_vec)@).update(
            vm_id as int,
            monitor_step(slots(old(vm_vec)@)[vm_id as int], reachable, opt_view(found)),
        ),
{
    let ghost s0 = vm_vec@[vm_id as int]@;
    if vm_vec[vm_id].status > 0 {
        if reachable {
            vm_vec[vm_id].status = RUNNING;
            if vm_vec[vm_id].process_id.unicode_len() == 0 {
                match found {
                    Some(h) => {
                        vm_vec[vm_id].process_id = h;
                    },
                    None => {},
                }
            }
        } else if vm_vec[vm_id].status != BOOTING {
            vm_vec[vm_id].status = UNKNOWN;
        }
    }
    assert(vm_vec@[vm_id as int]@ == after_probe(s0, reachable, opt_view(found)));
    if vm_vec[vm_id].status == UNKNOWN || vm_vec[vm_id].status == STOPPING {
        if vm_vec[vm_id].lost_signal_count > 0 {
            vm_vec[vm_id].lost_signal_count = vm_vec[vm_id].lost_signal_count - 1;
        } else {
            vm_vec[vm_id].status = STOPPED;
            vm_vec[vm_id].process_id = String::new();
            vm_vec[vm_id].lost_signal_count = DEFAULT_GRACE;
        }
    }
    assert(slots(vm_vec@) =~= slots(old(vm_vec)@).update(
        vm_id as int,
        monitor_step(slots(old(vm_vec)@)[vm_id as int], reachable, opt_view(found)),
    ));
}

/// Address of the VM of slot `vm_id` on its own subnet, which the monitor probes.
pub fn vm_address(vm_id: u64) -> (r: String)
    ensures
        r@ == "192.168."@ + decimal_digits(vm_id as nat) + ".2"@,
{
    let mut a = String::from_str("192.168.");
    a.append(decimal_text(vm_id).as_str());
    a.append(".2");
    a
}

/// Address of the host side (gateway) of the subnet of slot `vm_id`.
pub fn gateway_address(vm_id: u64) -> (r: String)
    ensures
        r@ == "192.168."@ + decimal_digits(vm_id as nat) + ".1"@,
{
    let mut a = String::from_str("192.168.");
    a.append(decimal_text(vm_id).as_str());
    a.append(".1");
    a
}

/// The slot after `k` monitor cycles in which the VM never answered.
pub open spec fn after_failed_cycles(s: SlotView, k: nat) -> SlotView
    decreases k,
{
    if k == 0 {
        s
    } else {
        monitor_step(after_failed_cycles(s, (k - 1) as nat), false, None)
    }
}

/// Grace law: an `UNKNOWN` slot with grace `g` is still `UNKNOWN`, with `g - k`
/// grace left, after `k <= g` failed cycles, and is `STOPPED`, with its handle
/// cleared and its grace restored, after exactly `g + 1`.
pub proof fn lemma_grace_tolerance(s: SlotView, k: nat)
    requires
        s.status == UNKNOWN,
    ensures
        k <= s.grace ==> after_failed_cycles(s, k) == (SlotView { grace: (s.grace - k) as nat, ..s }),
        k == s.grace + 1 ==> after_failed_cycles(s, k) == stopped_slot(),
    decreases k,
{
    if k > 0 && k <= s.grace + 1 {
        lemma_grace_tolerance(s, (k - 1) as nat);
    }
}

/// Running law: a monitor cycle makes a slot `RUNNING` only when the probe
/// succeeded on a booted VM. From a slot that is free, requested, stopped or
/// booting it does so exactly when the slot was `BOOTING`; the other booted states
/// (`UNKNOWN`, `STOPPING`) are left for `RUNNING` too when the VM answers again.
/// (Starting, stopping and marking stopped set `BOOTING`, `STOPPING` and
/// `STOPPED`, never `RUNNING`.)
pub proof fn lemma_running_only_by_probe(s: SlotView, reachable: bool, found: Option<Seq<char>>)
    ensures
        ({
            let t = monitor_step(s, reachable, found);
            t.status == RUNNING && s.status != RUNNING ==> reachable && s.status > 0
        }),
        ({
            let t = monitor_step(s, reachable, found);
            s.status <= BOOTING ==> (t.status == RUNNING <==> s.status == BOOTING && reachable)
        }),
{
}

/// Stopped law: for the statuses the lifecycle uses (`FREE` up to `STOPPING`), a
/// monitor cycle stops a booted VM only when it did not answer, was `RUNNING`,
/// `UNKNOWN` or `STOPPING` (so it was or became `UNKNOWN`, or was `STOPPING`) and
/// had no grace left; the slot then has its handle cleared and its grace restored.
/// A free or booting slot is never stopped by a cycle. For any booted status at
/// all, a stopping cycle is one without an answer, on a slot that was not
/// `BOOTING`, with no grace left. (The only other way to `STOPPED` is the
/// immediate mark of a stop, `mark_vm_stop`.)
pub proof fn lemma_stopped_only_by_grace_or_stop(s: SlotView, reachable: bool, found: Option<Seq<char>>)
    ensures
        ({
            let t = monitor_step(s, reachable, found);
            FREE <= s.status <= STOPPING && s.status > 0 && t.status == STOPPED ==> !reachable
                && (s.status == RUNNING || s.status == UNKNOWN || s.status == STOPPING)
                && s.grace == 0 && t == stopped_slot()
        }),
        ({
            let t = monitor_step(s, reachable, found);
            s.status == FREE || s.status == BOOTING ==> t.status != STOPPED
        }),
        ({
            let t = monitor_step(s, reachable, found);
            s.status > 0 && t.status == STOPPED ==> !reachable && s.status != BOOTING && s.grace == 0
        }),
{
}

} // verus!
