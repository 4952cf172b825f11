use vstd::prelude::*;

use crate::devices::{candidates, device_views, extract_addresses, opt_text, texts_of, HostDevice};

verus! {

/// A PCI device to pass through, by bus address.
pub struct HostPci {
    pub address: String,
}

/// GPUs wanted: `amount` devices whose display name contains `device_name`.
pub struct HostGpu {
    pub device_name: String,
    pub amount: i32,
}

pub struct RequestPciData {
    pub hostpcis: Vec<HostPci>,
}

pub struct RequestGpuData {
    pub hostgpus: Vec<HostGpu>,
}

/// Number of attempts an attach is given.
pub const ATTACH_RETRIES: i16 = 3;

/// Progress of one device attach: attempts left, and the response of the attempt
/// that succeeded, if any.
pub struct AttachRetry {
    pub retries_left: i16,
    pub result: Option<String>,
}

impl AttachRetry {
    /// An attach that may be tried `retries` times.
    pub fn new(retries: i16) -> (r: AttachRetry)
        ensures
            r.retries_left == retries,
            r.result is None,
    {
        AttachRetry { retries_left: retries, result: None }
    }

    /// Whether another attempt is due: none succeeded yet and attempts are left.
    pub fn should_attempt(&self) -> (r: bool)
        ensures
            r == (self.retries_left > 0 && self.result is None),
    {
        self.retries_left > 0 && self.result.is_none()
    }

    /// Records the outcome of an attempt: the response on success, `None` on failure.
    /// A failure spends one attempt; a success ends the attach.
    pub fn record(&mut self, outcome: Option<String>)
        requires
            old(self).retries_left > 0,
            old(self).result is None,
        ensures
            (outcome is Some) ==> final(self).retries_left == old(self).retries_left
                && final(self).result == outcome,
            (outcome is None) ==> final(self).retries_left == old(self).retries_left - 1
                && (final(self).result is None),
    {
        match outcome {
            Some(response) => {
                self.result = Some(response);
            },
            None => {
                self.retries_left = self.retries_left - 1;
            },
        }
    }

    /// The response of the successful attempt, or `None` when every attempt failed.
    pub fn outcome(self) -> (r: Option<String>)
        ensures
            r == self.result,
    {
        self.result
    }
}

/// Progress of a GPU attach request. For each requested spec (index `request`),
/// unit `unit` is being placed and candidate `next` is the one to try; `assigned`
/// holds the addresses attached so far and `details` their responses.
pub struct GpuAttach {
    pub candidates: Vec<Vec<String>>,
    pub amounts: Vec<i32>,
    pub request: usize,
    pub unit: usize,
    pub next: usize,
    pub assigned: Vec<String>,
    pub details: Vec<String>,
}

pub struct GpuView {
    pub candidates: Seq<Seq<Seq<char>>>,
    pub amounts: Seq<int>,
    pub request: int,
    pub unit: int,
    pub next: int,
    pub assigned: Seq<Seq<char>>,
    pub details: Seq<Seq<char>>,
}

impl View for GpuAttach {
    type V = GpuView;

    open spec fn view(&self) -> GpuView {
        GpuView {
            candidates: self.candidates@.map_values(|v: Vec<String>| texts_of(v@)),
            amounts: self.amounts@.map_values(|a: i32| a as int),
            request: self.request as int,
            unit: self.unit as int,
            next: self.next as int,
            assigned: texts_of(self.assigned@),
            details: texts_of(self.details@),
        }
    }
}

/// Number of candidates of the current request.
pub open spec fn cap(g: GpuView) -> int {
    if 0 <= g.request < g.candidates.len() {
        g.candidates[g.request].len() as int
    } else {
        0
    }
}

/// Whether an attach attempt is still to be made.
pub open spec fn pending(g: GpuView) -> bool {
    0 <= g.request < g.candidates.len()
}

/// The address the next attempt goes to.
pub open spec fn current_address(g: GpuView) -> Seq<char> {
    g.candidates[g.request][g.next]
}

/// Moves to the next attempt to make. A unit whose scan ran off the end of the
/// candidates is given up and the next unit starts at its own offset; a request
/// is finished once its amount is placed or its units outnumber its candidates
/// (such units have nothing to try).
pub open spec fn settle(g: GpuView) -> GpuView
    decreases g.candidates.len() - g.request, cap(g) - g.unit, cap(g) - g.next,
{
    if g.request < 0 || g.request >= g.candidates.len() || g.unit < 0 || g.next < 0 {
        g
    } else if g.unit >= g.amounts[g.request] || g.unit >= g.candidates[g.request].len() {
        settle(GpuView { request: g.request + 1, unit: 0, next: 0, ..g })
    } else if g.next >= g.candidates[g.request].len() {
        settle(GpuView { unit: g.unit + 1, next: g.unit + 1, ..g })
    } else {
        g
    }
}

/// The state after the current attempt: on success its address is assigned, its
/// response kept, and the next unit starts at its own offset; on failure the scan
/// goes on with the next candidate.
pub open spec fn after_attempt(g: GpuView, outcome: Option<Seq<char>>) -> GpuView {
    match outcome {
        Some(d) => settle(
            GpuView {
                assigned: g.assigned.push(current_address(g)),
                details: g.details.push(d),
                unit: g.unit + 1,
                next: g.unit + 1,
                ..g
            },
        ),
        None => settle(GpuView { next: g.next + 1, ..g }),
    }
}

/// The state before any attempt, for the given candidate lists and amounts.
pub open spec fn gpu_start(cands: Seq<Seq<Seq<char>>>, amounts: Seq<int>) -> GpuView {
    settle(
        GpuView {
            candidates: cands,
            amounts: amounts,
            request: 0,
            unit: 0,
            next: 0,
            assigned: Seq::empty(),
            details: Seq::empty(),
        },
    )
}

/// Candidate lists of a GPU request list over a device catalog.
pub open spec fn gpu_candidates(devices: Seq<HostDevice>, requests: Seq<HostGpu>) -> Seq<
    Seq<Seq<char>>,
> {
    Seq::new(requests.len(), |i: int| candidates(device_views(devices), requests[i].device_name@))
}

pub open spec fn gpu_amounts(requests: Seq<HostGpu>) -> Seq<int> {
    Seq::new(requests.len(), |i: int| requests[i].amount as int)
}

/// A state whose current attempt, if any, is one of the unit's candidates.
pub open spec fn settled(g: GpuView) -> bool {
    &&& g.request >= 0
    &&& g.unit >= 0
    &&& g.amounts.len() == g.candidates.len()
    &&& pending(g) ==> 0 <= g.unit < cap(g) && 0 <= g.next < cap(g)
}

pub open spec fn distinct(s: Seq<Seq<char>>) -> bool {
    forall|i: int, j: int| 0 <= i < j < s.len() ==> s[i] != s[j]
}

proof fn lemma_settle(g: GpuView)
    requires
        g.request >= 0,
        g.unit >= 0,
        g.next >= 0,
        g.amounts.len() == g.candidates.len(),
    ensures
        settled(settle(g)),
        settle(g).candidates == g.candidates,
        settle(g).amounts == g.amounts,
        settle(g).assigned == g.assigned,
        settle(g).details == g.details,
    decreases g.candidates.len() - g.request, cap(g) - g.unit, cap(g) - g.next,
{
    if g.request >= g.candidates.len() {
    } else if g.unit >= g.amounts[g.request] || g.unit >= g.candidates[g.request].len() {
        lemma_settle(GpuView { request: g.request + 1, unit: 0, next: 0, ..g });
    } else if g.next >= g.candidates[g.request].len() {
        lemma_settle(GpuView { unit: g.unit + 1, next: g.unit + 1, ..g });
    }
}

/// The state after the attempts whose outcomes are `outcomes`, in order.
pub open spec fn run(g: GpuView, outcomes: Seq<Option<Seq<char>>>) -> GpuView
    decreases outcomes.len(),
{
    if outcomes.len() == 0 || !pending(g) {
        g
    } else {
        run(after_attempt(g, outcomes[0]), outcomes.drop_first())
    }
}

/// Whether the outcomes agree with the hypervisor refusing a duplicate: every
/// attempt on an address already attached in this request list fails.
pub open spec fn duplicates_refused(g: GpuView, outcomes: Seq<Option<Seq<char>>>) -> bool
    decreases outcomes.len(),
{
    if outcomes.len() == 0 || !pending(g) {
        true
    } else {
        &&& (g.assigned.contains(current_address(g)) ==> outcomes[0] is None)
        &&& duplicates_refused(after_attempt(g, outcomes[0]), outcomes.drop_first())
    }
}

proof fn lemma_attempt_keeps_distinct(g: GpuView, outcome: Option<Seq<char>>)
    requires
        settled(g),
        pending(g),
        distinct(g.assigned),
        g.assigned.contains(current_address(g)) ==> outcome is None,
    ensures
        settled(after_attempt(g, outcome)),
        distinct(after_attempt(g, outcome).assigned),
{
    match outcome {
        Some(d) => {
            let h = GpuView {
                assigned: g.assigned.push(current_address(g)),
                details: g.details.push(d),
                unit: g.unit + 1,
                next: g.unit + 1,
                ..g
            };
            lemma_settle(h);
            assert forall|i: int, j: int| 0 <= i < j < h.assigned.len() implies h.assigned[i]
                != h.assigned[j] by {
                if j == h.assigned.len() - 1 {
                    assert(g.assigned[i] == h.assigned[i]);
                }
            }
        },
        None => {
            lemma_settle(GpuView { next: g.next + 1, ..g });
        },
    }
}

proof fn lemma_attempt_settled(g: GpuView, outcome: Option<Seq<char>>)
    requires
        settled(g),
        pending(g),
    ensures
        settled(after_attempt(g, outcome)),
{
    match outcome {
        Some(d) => {
            lemma_settle(
                GpuView {
                    assigned: g.assigned.push(current_address(g)),
                    details: g.details.push(d),
                    unit: g.unit + 1,
                    next: g.unit + 1,
                    ..g
                },
            );
        },
        None => {
            lemma_settle(GpuView { next: g.next + 1, ..g });
        },
    }
}

proof fn lemma_run_distinct(g: GpuView, outcomes: Seq<Option<Seq<char>>>)
    requires
        settled(g),
        distinct(g.assigned),
        duplicates_refused(g, outcomes),
    ensures
        distinct(run(g, outcomes).assigned),
    decreases outcomes.len(),
{
    if outcomes.len() > 0 && pending(g) {
        lemma_attempt_keeps_distinct(g, outcomes[0]);
        lemma_run_distinct(after_attempt(g, outcomes[0]), outcomes.drop_first());
    }
}

/// GPU selection law: when every attempt on an address already attached in this
/// request list comes back failed (the hypervisor refuses a duplicate), one GPU
/// request list never attaches the same address twice; units that find no
/// candidate left are omitted instead.
pub proof fn lemma_gpu_assignments_distinct(
    cands: Seq<Seq<Seq<char>>>,
    amounts: Seq<int>,
    outcomes: Seq<Option<Seq<char>>>,
)
    requires
        amounts.len() == cands.len(),
        duplicates_refused(gpu_start(cands, amounts), outcomes),
    ensures
        distinct(run(gpu_start(cands, amounts), outcomes).assigned),
{
    let g = GpuView {
        candidates: cands,
        amounts: amounts,
        request: 0,
        unit: 0,
        next: 0,
        assigned: Seq::empty(),
        details: Seq::empty(),
    };
    lemma_settle(g);
    lemma_run_distinct(gpu_start(cands, amounts), outcomes);
}

impl GpuAttach {
    pub open spec fn wf(&self) -> bool {
        settled(self@)
    }

    /// Moves to the next attempt to make (see `settle`).
    fn advance(&mut self)
        requires
            old(self)@.amounts.len() == old(self)@.candidates.len(),
        ensures
            final(self)@ == settle(old(self)@),
    {
        let ghost target = settle(self@);
        loop
            invariant
                self@.amounts.len() == self@.candidates.len(),
                settle(self@) == target,
            ensures
                self@ == target,
            decreases self@.candidates.len() - self@.request, cap(self@) - self@.unit, cap(self@) - self@.next,
        {
            if self.request >= self.candidates.len() {
                break;
            }
            let ghost before = self@;
            let r = self.request;
            let count = self.candidates[r].len();
            assert(self@.candidates[r as int].len() == count);
            assert(self@.amounts[r as int] == self.amounts@[r as int] as int);
            if self.amounts[r] <= 0 || self.unit >= self.amounts[r] as usize || self.unit >= count {
                self.request = r + 1;
                self.unit = 0;
                self.next = 0;
                assert(self@ == (GpuView { request: before.request + 1, unit: 0, next: 0, ..before }));
            } else if self.next >= count {
                self.unit = self.unit + 1;
                self.next = self.unit;
                assert(self@ == (GpuView { unit: before.unit + 1, next: before.unit + 1, ..before }));
            } else {
                break;
            }
        }
    }

    /// The attach plan for a GPU request list over a device catalog: for each
    /// request, the addresses of the devices whose name contains its device name.
    pub fn new(devices: &Vec<HostDevice>, requests: &Vec<HostGpu>) -> (r: GpuAttach)
        ensures
            r.wf(),
            r@ == gpu_start(gpu_candidates(devices@, requests@), gpu_amounts(requests@)),
    {
        let mut cands: Vec<Vec<String>> = Vec::new();
        let mut amounts: Vec<i32> = Vec::new();
        let mut i: usize = 0;
        while i < requests.len()
            invariant
                i <= requests.len(),
                cands@.len() == i,
                amounts@.len() == i,
                forall|k: int| 0 <= k < i ==> texts_of(#[trigger] cands@[k]@) == candidates(
                    device_views(devices@),
                    requests@[k].device_name@,
                ),
                forall|k: int| 0 <= k < i ==> #[trigger] amounts@[k] == requests@[k].amount,
            decreases requests.len() - i,
        {
            cands.push(extract_addresses(devices, requests[i].device_name.as_str()));
            amounts.push(requests[i].amount);
            i = i + 1;
        }
        let mut g = GpuAttach {
            candidates: cands,
            amounts: amounts,
            request: 0,
            unit: 0,
            next: 0,
            assigned: Vec::new(),
            details: Vec::new(),
        };
        let ghost g0 = g@;
        assert(g0.candidates =~= gpu_candidates(devices@, requests@));
        assert(g0.amounts =~= gpu_amounts(requests@));
        assert(g0.assigned =~= Seq::empty());
        assert(g0.details =~= Seq::empty());
        proof {
            lemma_settle(g0);
        }
        g.advance();
        g
    }

    /// Whether every attempt has been made.
    pub fn is_done(&self) -> (r: bool)
        ensures
            r == !pending(self@),
    {
        self.request >= self.candidates.len()
    }

    /// The address to attach next, or `None` when done.
    pub fn current(&self) -> (r: Option<String>)
        requires
            self.wf(),
        ensures
            !pending(self@) ==> r is None,
            pending(self@) ==> r is Some && r->0@ == current_address(self@),
    {
        if self.request >= self.candidates.len() {
            None
        } else {
            assert(self@.candidates[self.request as int] == texts_of(self.candidates@[self.request as int]@));
            Some(self.candidates[self.request][self.next].clone())
        }
    }

    /// Records the outcome of the attempt on the current address: its response on
    /// success, `None` when the device could not be attached.
    pub fn record(&mut self, outcome: Option<String>)
        requires
            old(self).wf(),
            pending(old(self)@),
        ensures
            final(self).wf(),
            final(self)@ == after_attempt(old(self)@, opt_text(outcome)),
    {
        let ghost g = self@;
        proof {
            lemma_attempt_settled(g, opt_text(outcome));
        }
        assert(g.candidates[self.request as int] == texts_of(self.candidates@[self.request as int]@));
        let count = self.candidates[self.request].len();
        assert(self.unit < count && self.next < count);
        match outcome {
            Some(d) => {
                assert(g.candidates[self.request as int] == texts_of(self.candidates@[self.request as int]@));
                let addr = self.candidates[self.request][self.next].clone();
                let ghost dv = d@;
                self.assigned.push(addr);
                self.details.push(d);
                self.unit = self.unit + 1;
                self.next = self.unit;
                assert(self@.assigned =~= g.assigned.push(current_address(g)));
                assert(self@.details =~= g.details.push(dv));
                assert(self@ == (GpuView {
                    assigned: g.assigned.push(current_address(g)),
                    details: g.details.push(dv),
                    unit: g.unit + 1,
                    next: g.unit + 1,
                    ..g
                }));
            },
            None => {
                self.next = self.next + 1;
                assert(self@ == (GpuView { next: g.next + 1, ..g }));
            },
        }
        self.advance();
    }

    /// The responses of the attached devices, in the order they were attached.
    pub fn into_details(self) -> (r: Vec<String>)
        ensures
            texts_of(r@) == self@.details,
    {
        self.details
    }
}

} // verus!
