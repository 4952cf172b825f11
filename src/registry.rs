use vstd::prelude::*;

verus! {

/// Number of VM slots on the node; the table never grows or shrinks.
pub const MAXVM: usize = 253;

/// Slot is unused and may be claimed by an allocation.
pub const FREE: i32 = -1;
/// Slot was just claimed; the VM has not been started yet.
pub const REQUESTED: i32 = 0;
/// VM was stopped; shares its code with `REQUESTED`.
pub const STOPPED: i32 = 0;
/// VM process was started and has not answered a probe yet.
pub const BOOTING: i32 = 1;
/// VM answered the last probe.
pub const RUNNING: i32 = 2;
/// VM stopped answering probes.
pub const UNKNOWN: i32 = 3;
/// Termination of the VM was requested.
pub const STOPPING: i32 = 4;

/// Missed probes tolerated before an unreachable VM is declared stopped.
pub const DEFAULT_GRACE: usize = 3;

/// One row of the fleet table.
pub struct VmStatus {
    /// OS process id of the VM, empty when none is known.
    pub process_id: String,
    pub status: i32,
    /// Remaining tolerance for missed probes.
    pub lost_signal_count: usize,
}

/// Mathematical model of a slot.
pub struct SlotView {
    pub process_id: Seq<char>,
    pub status: int,
    pub grace: nat,
}

impl View for VmStatus {
    type V = SlotView;

    open spec fn view(&self) -> SlotView {
        SlotView {
            process_id: self.process_id@,
            status: self.status as int,
            grace: self.lost_signal_count as nat,
        }
    }
}

/// Views of all slots of a table.
pub open spec fn slots(v: Seq<VmStatus>) -> Seq<SlotView> {
    v.map_values(|s: VmStatus| s@)
}

pub open spec fn with_status(s: SlotView, status: int) -> SlotView {
    SlotView { status: status, ..s }
}

/// The slot as `init_vm_vec` creates it.
pub open spec fn fresh_slot() -> SlotView {
    SlotView { process_id: Seq::empty(), status: FREE as int, grace: DEFAULT_GRACE as nat }
}

/// The slot after its VM is marked stopped: handle cleared, grace restored.
pub open spec fn stopped_slot() -> SlotView {
    SlotView { process_id: Seq::empty(), status: STOPPED as int, grace: DEFAULT_GRACE as nat }
}

/// Index of the first free slot at or after `i`, or -1 when there is none.
pub open spec fn first_free_from(s: Seq<SlotView>, i: int) -> int
    decreases MAXVM - i,
{
    if i < 0 || i >= MAXVM || i >= s.len() {
        -1
    } else if s[i].status == FREE {
        i
    } else {
        first_free_from(s, i + 1)
    }
}

/// Table and result after one allocation: the first free slot becomes `REQUESTED`
/// and its index is returned; with no free slot the table is unchanged and -1 comes back.
pub open spec fn allocation(s: Seq<SlotView>) -> (Seq<SlotView>, int) {
    let i = first_free_from(s, 0);
    if i >= 0 {
        (s.update(i, with_status(s[i], REQUESTED as int)), i)
    } else {
        (s, -1)
    }
}

/// Appends `MAXVM` free slots, each with an empty handle and the default grace.
pub fn init_vm_vec(vm_vec: &mut Vec<VmStatus>)
    ensures
        final(vm_vec)@.len() == old(vm_vec)@.len() + MAXVM,
        slots(final(vm_vec)@) == slots(old(vm_vec)@) + Seq::new(MAXVM as nat, |i: int| fresh_slot()),
{
    let ghost start = slots(vm_vec@);
    let mut n: usize = 0;
    assert(slots(vm_vec@) =~= start + Seq::new(0, |i: int| fresh_slot()));
    while n < MAXVM
        invariant
            n <= MAXVM,
            slots(vm_vec@) == start + Seq::new(n as nat, |i: int| fresh_slot()),
        decreases MAXVM - n,
    {
        let ghost prev = vm_vec@;
        let slot = VmStatus { process_id: String::new(), status: FREE, lost_signal_count: DEFAULT_GRACE };
        assert(slot@ == fresh_slot());
        vm_vec.push(slot);
        assert(vm_vec@ == prev.push(slot));
        assert(slots(vm_vec@) =~= slots(prev).push(fresh_slot()));
        n = n + 1;
        assert(slots(vm_vec@) =~= start + Seq::new(n as nat, |i: int| fresh_slot()));
    }
}

/// Claims the first free slot among the first `MAXVM` and returns its index, or -1
/// when every slot is taken.
pub fn find_free_slot(vm_vec: &mut Vec<VmStatus>) -> (r: i16)
    ensures
        final(vm_vec)@.len() == old(vm_vec)@.len(),
        slots(final(vm_vec)@) == allocation(slots(old(vm_vec)@)).0,
        r as int == allocation(slots(old(vm_vec)@)).1,
{
    let ghost start = slots(vm_vec@);
    let mut i: usize = 0;
    while i < MAXVM && i < vm_vec.len()
        invariant
            i <= MAXVM,
            i <= vm_vec.len(),
            start == slots(old(vm_vec)@),
            vm_vec@ == old(vm_vec)@,
            first_free_from(start, 0) == first_free_from(start, i as int),
        decreases MAXVM - i,
    {
        assert(start[i as int] == vm_vec@[i as int]@);
        if vm_vec[i].status == FREE {
            vm_vec[i].status = REQUESTED;
            assert(slots(vm_vec@) =~= start.update(i as int, with_status(start[i as int], REQUESTED as int)));
            return i as i16;
        }
        i = i + 1;
    }
    -1
}

/// Overwrites the handle and status of slot `vm_id`; the grace is kept.
pub fn modify_slot(vm_vec: &mut Vec<VmStatus>, vm_id: usize, process_id: &str, status: i32)
    requires
        vm_id < old(vm_vec).len(),
    ensures
        final(vm_vec)@.len() == old(vm_vec)@.len(),
        slots(final(vm_vec)@) == slots(old(vm_vec)@).update(
            vm_id as int,
            SlotView { process_id: process_id@, status: status as int, ..slots(old(vm_vec)@)[vm_id as int] },
        ),
{
    vm_vec[vm_id].process_id = String::from_str(process_id);
    vm_vec[vm_id].status = status;
    assert(slots(vm_vec@) =~= slots(old(vm_vec)@).update(
        vm_id as int,
        SlotView { process_id: process_id@, status: status as int, ..slots(old(vm_vec)@)[vm_id as int] },
    ));
}

/// The slot named by an external VM id, when the id is one of the `MAXVM` slot indices.
pub fn slot_index(vm_id: i16) -> (r: Option<usize>)
    ensures
        0 <= vm_id < MAXVM ==> r == Some(vm_id as usize),
        !(0 <= vm_id < MAXVM) ==> r is None,
{
    if vm_id >= 0 && (vm_id as usize) < MAXVM {
        Some(vm_id as usize)
    } else {
        None
    }
}

/// A slot index from a signed id: negative ids become 0.
pub fn i16_to_usize(value: i16) -> (r: usize)
    ensures
        r == if value < 0 { 0 } else { value as int },
{
    if value < 0 {
        0
    } else {
        value as usize
    }
}

/// A copy of slot `vm_id`, so that callers never hold a reference into the table.
pub fn get_slot(vm_vec: &Vec<VmStatus>, vm_id: usize) -> (r: VmStatus)
    requires
        vm_id < vm_vec.len(),
    ensures
        r@ == vm_vec@[vm_id as int]@,
{
    let s = &vm_vec[vm_id];
    VmStatus {
        process_id: s.process_id.clone(),
        status: s.status,
        lost_signal_count: s.lost_signal_count,
    }
}

/// Marks the VM of slot `vm_id` stopped: status `STOPPED`, handle cleared, grace
/// restored. A stop does this right after the kill signal, whatever its outcome.
pub fn mark_vm_stop(vm_vec: &mut Vec<VmStatus>, vm_id: usize)
    requires
        vm_id < old(vm_vec).len(),
    ensures
        final(vm_vec)@.len() == old(vm_vec)@.len(),
        slots(final(vm_vec)@) == slots(old(vm_vec)@).update(vm_id as int, stopped_slot()),
{
    vm_vec[vm_id].status = STOPPED;
    vm_vec[vm_id].process_id = String::new();
    vm_vec[vm_id].lost_signal_count = DEFAULT_GRACE;
    assert(slots(vm_vec@) =~= slots(old(vm_vec)@).update(vm_id as int, stopped_slot()));
}

/// Start of a VM launch: the slot becomes `BOOTING` before the process is started.
pub fn begin_start(vm_vec: &mut Vec<VmStatus>, vm_id: usize)
    requires
        vm_id < old(vm_vec).len(),
    ensures
        final(vm_vec)@.len() == old(vm_vec)@.len(),
        slots(final(vm_vec)@) == slots(old(vm_vec)@).update(
            vm_id as int,
            with_status(slots(old(vm_vec)@)[vm_id as int], BOOTING as int),
        ),
{
    vm_vec[vm_id].status = BOOTING;
    assert(slots(vm_vec@) =~= slots(old(vm_vec)@).update(
        vm_id as int,
        with_status(slots(old(vm_vec)@)[vm_id as int], BOOTING as int),
    ));
}

/// Start of a stop: the slot becomes `STOPPING`; the handle to signal is returned
/// when one is known.
pub fn begin_stop(vm_vec: &mut Vec<VmStatus>, vm_id: usize) -> (r: Option<String>)
    requires
        vm_id < old(vm_vec).len(),
    ensures
        final(vm_vec)@.len() == old(vm_vec)@.len(),
        slots(final(vm_vec)@) == slots(old(vm_vec)@).update(
            vm_id as int,
            with_status(slots(old(vm_vec)@)[vm_id as int], STOPPING as int),
        ),
        old(vm_vec)@[vm_id as int].process_id@.len() == 0 ==> r is None,
        old(vm_vec)@[vm_id as int].process_id@.len() > 0 ==> r is Some
            && r->0@ == old(vm_vec)@[vm_id as int].process_id@,
{
    vm_vec[vm_id].status = STOPPING;
    assert(slots(vm_vec@) =~= slots(old(vm_vec)@).update(
        vm_id as int,
        with_status(slots(old(vm_vec)@)[vm_id as int], STOPPING as int),
    ));
    if vm_vec[vm_id].process_id.unicode_len() == 0 {
        None
    } else {
        Some(vm_vec[vm_id].process_id.clone())
    }
}

/// Display name of a status code, for the codes that have one.
pub open spec fn status_name(status: int) -> Option<Seq<char>> {
    if status == 0 {
        Some("Stopped"@)
    } else if status == 1 {
        Some("Booting"@)
    } else if status == 2 {
        Some("Running"@)
    } else if status == 3 {
        Some("Unknown"@)
    } else if status == 4 {
        Some("Stopping"@)
    } else if status == 5 {
        Some("Paused"@)
    } else if status == 6 {
        Some("Locked"@)
    } else if status == 7 {
        Some("Migrating"@)
    } else {
        None
    }
}

pub fn status_label(status: i32) -> (r: Option<&'static str>)
    ensures
        status_name(status as int) is None ==> r is None,
        status_name(status as int) is Some ==> r is Some && r->0@ == status_name(status as int)->0,
{
    if status == 0 {
        Some("Stopped")
    } else if status == 1 {
        Some("Booting")
    } else if status == 2 {
        Some("Running")
    } else if status == 3 {
        Some("Unknown")
    } else if status == 4 {
        Some("Stopping")
    } else if status == 5 {
        Some("Paused")
    } else if status == 6 {
        Some("Locked")
    } else if status == 7 {
        Some("Migrating")
    } else {
        None
    }
}

/// What a status query reports for a slot: its status name, or "Not Found" for a
/// free slot or a code without a name.
pub open spec fn status_report(status: int) -> Seq<char> {
    match status_name(status) {
        Some(n) => n,
        None => "Not Found"@,
    }
}

pub fn get_vm_status(vm_vec: &Vec<VmStatus>, vm_id: usize) -> (r: String)
    requires
        vm_id < vm_vec.len(),
    ensures
        r@ == status_report(vm_vec@[vm_id as int].status as int),
{
    match status_label(vm_vec[vm_id].status) {
        Some(name) => String::from_str(name),
        None => String::from_str("Not Found"),
    }
}

/// One line of the VM listing.
pub struct VmInfo {
    pub vm_id: usize,
    pub status: String,
}

/// The listing of the first `n` slots: each slot whose status has a name, in index order.
pub open spec fn listing(s: Seq<SlotView>, n: int) -> Seq<(int, Seq<char>)>
    decreases n,
{
    if n <= 0 {
        Seq::empty()
    } else {
        let rest = listing(s, n - 1);
        match status_name(s[n - 1].status) {
            Some(name) => rest.push((n - 1, name)),
            None => rest,
        }
    }
}

pub open spec fn info_views(v: Seq<VmInfo>) -> Seq<(int, Seq<char>)> {
    v.map_values(|e: VmInfo| (e.vm_id as int, e.status@))
}

/// Lists the VMs of the table: every slot among the first `MAXVM` whose status has a name.
pub fn get_vms_info(vm_vec: &Vec<VmStatus>) -> (r: Vec<VmInfo>)
    ensures
        info_views(r@) == listing(slots(vm_vec@), if vm_vec@.len() < MAXVM { vm_vec@.len() as int } else { MAXVM as int }),
{
    let mut out: Vec<VmInfo> = Vec::new();
    let mut i: usize = 0;
    while i < MAXVM && i < vm_vec.len()
        invariant
            i <= MAXVM,
            i <= vm_vec.len(),
            info_views(out@) == listing(slots(vm_vec@), i as int),
        decreases MAXVM - i,
    {
        let ghost prev = out@;
        assert(slots(vm_vec@)[i as int] == vm_vec@[i as int]@);
        match status_label(vm_vec[i].status) {
            Some(name) => {
                out.push(VmInfo { vm_id: i, status: String::from_str(name) });
                assert(info_views(out@) =~= info_views(prev).push((i as int, name@)));
            },
            None => {},
        }
        i = i + 1;
    }
    out
}

/// The table that `init_vm_vec` builds in an empty vector.
pub open spec fn fresh_table() -> Seq<SlotView> {
    Seq::new(MAXVM as nat, |i: int| fresh_slot())
}

/// The table after `k` allocations, one after the other, starting from `s`.
pub open spec fn after_allocations(s: Seq<SlotView>, k: nat) -> Seq<SlotView>
    decreases k,
{
    if k == 0 {
        s
    } else {
        allocation(after_allocations(s, (k - 1) as nat)).0
    }
}

/// A fresh table whose first `m` slots were claimed.
spec fn claimed_prefix(m: int) -> Seq<SlotView> {
    Seq::new(
        MAXVM as nat,
        |i: int| if i < m { with_status(fresh_slot(), REQUESTED as int) } else { fresh_slot() },
    )
}

proof fn lemma_first_free_of_prefix(m: int, i: int)
    requires
        0 <= i <= m <= MAXVM,
    ensures
        first_free_from(claimed_prefix(m), i) == if m < MAXVM { m } else { -1 },
    decreases MAXVM - i,
{
    if i < m {
        lemma_first_free_of_prefix(m, i + 1);
    }
}

proof fn lemma_allocations_from_fresh(k: nat)
    ensures
        after_allocations(fresh_table(), k) == claimed_prefix(if k < MAXVM { k as int } else { MAXVM as int }),
    decreases k,
{
    if k == 0 {
        assert(fresh_table() =~= claimed_prefix(0));
    } else {
        let m: int = if k - 1 < MAXVM { (k - 1) as int } else { MAXVM as int };
        lemma_allocations_from_fresh((k - 1) as nat);
        lemma_first_free_of_prefix(m, 0);
        if m < MAXVM {
            assert(claimed_prefix(m).update(m, with_status(claimed_prefix(m)[m], REQUESTED as int))
                =~= claimed_prefix(m + 1));
        }
    }
}

/// Allocation law: on a fresh table, the allocation made after `k` earlier ones
/// returns index `k` while `k < MAXVM`, so every allocation gets a slot of its own,
/// and returns -1 (no capacity) once all `MAXVM` slots are taken.
pub proof fn lemma_allocation_sequence(k: nat)
    ensures
        allocation(after_allocations(fresh_table(), k)).1 == if k < MAXVM { k as int } else { -1 },
{
    lemma_allocations_from_fresh(k);
    lemma_first_free_of_prefix(if k < MAXVM { k as int } else { MAXVM as int }, 0);
}

} // verus!
