use vstd::prelude::*;

use sha1::Digest;

use crate::text::{hex_bytes, hex_lower, is_lower_hex, lemma_hex_bytes_shape, signed_decimal, signed_decimal_text};

verus! {

/// Name for the SHA-1 digest of the UTF-8 encoding of a text.
pub uninterp spec fn sha1_digest(text: Seq<char>) -> Seq<u8>;

/// Relies on `sha1::Sha1::digest` (the `digest::Digest` trait): the SHA-1 digest
/// of the text's UTF-8 bytes, 20 bytes long.
#[verifier::external_body]
fn sha1_of(text: &str) -> (r: Vec<u8>)
    ensures
        r@ == sha1_digest(text@),
        r@.len() == 20,
{
    sha1::Sha1::digest(text.as_bytes()).to_vec()
}

/// Fingerprint of a hotplug request: lowercase hex of the SHA-1 digest of the VM
/// id in decimal followed by the request payload.
pub open spec fn ticket_id_of(vm_id: i16, payload: Seq<char>) -> Seq<char> {
    hex_bytes(sha1_digest(signed_decimal(vm_id as int) + payload))
}

/// Computes the fingerprint of a hotplug request for VM `vm_id`: 40 lowercase
/// hex digits.
pub fn generate_ticket(vm_id: i16, payload_str: String) -> (r: String)
    ensures
        r@ == ticket_id_of(vm_id, payload_str@),
        r@.len() == 40,
        forall|i: int| 0 <= i < r@.len() ==> is_lower_hex(#[trigger] r@[i]),
{
    let mut message = signed_decimal_text(vm_id);
    message.append(payload_str.as_str());
    let digest = sha1_of(message.as_str());
    proof {
        lemma_hex_bytes_shape(digest@);
    }
    hex_lower(&digest)
}

/// A completed hotplug job: its fingerprint, its VM and the raw outcome of each device.
pub struct Ticket {
    pub id: String,
    pub vm_id: i16,
    pub pcis_detail: Vec<String>,
}

pub struct TicketView {
    pub id: Seq<char>,
    pub vm_id: i16,
    pub detail: Seq<Seq<char>>,
}

pub open spec fn texts(v: Seq<String>) -> Seq<Seq<char>> {
    v.map_values(|s: String| s@)
}

impl View for Ticket {
    type V = TicketView;

    open spec fn view(&self) -> TicketView {
        TicketView { id: self.id@, vm_id: self.vm_id, detail: texts(self.pcis_detail@) }
    }
}

pub open spec fn ticket_views(v: Seq<Ticket>) -> Seq<TicketView> {
    v.map_values(|t: Ticket| t@)
}

impl Ticket {
    /// An independent copy of the ticket.
    pub fn duplicate(&self) -> (r: Ticket)
        ensures
            r@ == self@,
    {
        let detail = self.pcis_detail.clone();
        assert(detail@ =~= self.pcis_detail@);
        Ticket { id: self.id.clone(), vm_id: self.vm_id, pcis_detail: detail }
    }
}

/// Index of the first ticket at or after `i` whose id is `id`, or -1.
pub open spec fn position_from(s: Seq<TicketView>, id: Seq<char>, i: int) -> int
    decreases s.len() - i,
{
    if i < 0 || i >= s.len() {
        -1
    } else if s[i].id == id {
        i
    } else {
        position_from(s, id, i + 1)
    }
}

pub open spec fn position_of(s: Seq<TicketView>, id: Seq<char>) -> int {
    position_from(s, id, 0)
}

/// The tickets of `s` whose id is not `id`, in order.
pub open spec fn without_id(s: Seq<TicketView>, id: Seq<char>) -> Seq<TicketView>
    decreases s.len(),
{
    if s.len() == 0 {
        s
    } else {
        let rest = without_id(s.drop_last(), id);
        if s.last().id == id {
            rest
        } else {
            rest.push(s.last())
        }
    }
}

/// Appends a completed ticket to the list.
pub fn store_ticket(vm_id: i16, ticket_id: &str, pcis_detail: Vec<String>, ticket_list: &mut Vec<Ticket>)
    ensures
        ticket_views(final(ticket_list)@) == ticket_views(old(ticket_list)@).push(
            TicketView { id: ticket_id@, vm_id: vm_id, detail: texts(pcis_detail@) },
        ),
{
    let ticket = Ticket { id: String::from_str(ticket_id), vm_id: vm_id, pcis_detail: pcis_detail };
    ticket_list.push(ticket);
    assert(ticket_views(ticket_list@) =~= ticket_views(old(ticket_list)@).push(
        TicketView { id: ticket_id@, vm_id: vm_id, detail: texts(pcis_detail@) },
    ));
}

/// Index of the first ticket with id `ticket_id`.
pub fn ticket_position(ticket_id: &str, ticket_list: &Vec<Ticket>) -> (r: Option<usize>)
    ensures
        match r {
            Some(i) => i < ticket_list.len() && i as int == position_of(ticket_views(ticket_list@), ticket_id@),
            None => position_of(ticket_views(ticket_list@), ticket_id@) == -1,
        },
{
    let target = String::from_str(ticket_id);
    let ghost s = ticket_views(ticket_list@);
    let mut i: usize = 0;
    while i < ticket_list.len()
        invariant
            i <= ticket_list.len(),
            s == ticket_views(ticket_list@),
            target@ == ticket_id@,
            position_of(s, ticket_id@) == position_from(s, ticket_id@, i as int),
        decreases ticket_list.len() - i,
    {
        assert(s[i as int] == ticket_list@[i as int]@);
        if ticket_list[i].id == target {
            return Some(i);
        }
        i = i + 1;
    }
    None
}

/// A copy of the first ticket with id `ticket_id`, if any.
pub fn find_ticket(ticket_id: &str, ticket_list: &Vec<Ticket>) -> (r: Option<Ticket>)
    ensures
        position_of(ticket_views(ticket_list@), ticket_id@) == -1 ==> r is None,
        position_of(ticket_views(ticket_list@), ticket_id@) != -1 ==> r is Some && r->0@
            == ticket_views(ticket_list@)[position_of(ticket_views(ticket_list@), ticket_id@)],
{
    match ticket_position(ticket_id, ticket_list) {
        Some(i) => Some(ticket_list[i].duplicate()),
        None => None,
    }
}

/// Removes every ticket with id `ticket_id`; tells whether there was one.
pub fn remove_ticket(ticket_id: &str, ticket_list: &mut Vec<Ticket>) -> (r: bool)
    ensures
        ticket_views(final(ticket_list)@) == without_id(ticket_views(old(ticket_list)@), ticket_id@),
        r == (final(ticket_list)@.len() != old(ticket_list)@.len()),
{
    let target = String::from_str(ticket_id);
    let ghost s = ticket_views(ticket_list@);
    let mut kept: Vec<Ticket> = Vec::new();
    let mut i: usize = 0;
    while i < ticket_list.len()
        invariant
            i <= ticket_list.len(),
            target@ == ticket_id@,
            s == ticket_views(ticket_list@),
            ticket_views(kept@) == without_id(s.subrange(0, i as int), ticket_id@),
        decreases ticket_list.len() - i,
    {
        let ghost prev = kept@;
        assert(s.subrange(0, i as int + 1).drop_last() =~= s.subrange(0, i as int));
        assert(s[i as int] == ticket_list@[i as int]@);
        if !(ticket_list[i].id == target) {
            kept.push(ticket_list[i].duplicate());
            assert(ticket_views(kept@) =~= ticket_views(prev).push(s[i as int]));
        }
        i = i + 1;
    }
    assert(s.subrange(0, i as int) =~= s);
    let removed = kept.len() != ticket_list.len();
    *ticket_list = kept;
    removed
}

/// The store of hotplug tickets: fingerprints whose job is still running, and
/// completed tickets waiting to be polled.
pub struct TicketStore {
    pub in_flight: Vec<String>,
    pub tickets: Vec<Ticket>,
}

pub struct StoreView {
    pub in_flight: Seq<Seq<char>>,
    pub tickets: Seq<TicketView>,
}

impl View for TicketStore {
    type V = StoreView;

    open spec fn view(&self) -> StoreView {
        StoreView { in_flight: texts(self.in_flight@), tickets: ticket_views(self.tickets@) }
    }
}

/// Whether a ticket with this id exists, pending or completed.
pub open spec fn knows(s: StoreView, id: Seq<char>) -> bool {
    s.in_flight.contains(id) || position_of(s.tickets, id) != -1
}

/// Store and spawn decision after a submission with fingerprint `id`: a job is
/// spawned, and the id recorded as in flight, only when no ticket has this id.
pub open spec fn submission(s: StoreView, id: Seq<char>) -> (StoreView, bool) {
    if knows(s, id) {
        (s, false)
    } else {
        (StoreView { in_flight: s.in_flight.push(id), ..s }, true)
    }
}

/// The texts of `s` other than `x`, in order.
pub open spec fn without_text(s: Seq<Seq<char>>, x: Seq<char>) -> Seq<Seq<char>>
    decreases s.len(),
{
    if s.len() == 0 {
        s
    } else {
        let rest = without_text(s.drop_last(), x);
        if s.last() == x {
            rest
        } else {
            rest.push(s.last())
        }
    }
}

/// Store after the job for `id` completed with `detail`: the id is no longer in
/// flight and a completed ticket is appended.
pub open spec fn completion(s: StoreView, vm_id: i16, id: Seq<char>, detail: Seq<Seq<char>>) -> StoreView {
    StoreView {
        in_flight: without_text(s.in_flight, id),
        tickets: s.tickets.push(TicketView { id: id, vm_id: vm_id, detail: detail }),
    }
}

/// Store and answer after a poll for `id`: the first completed ticket with this id
/// is removed and its outcome returned; otherwise nothing changes.
pub open spec fn consumption(s: StoreView, id: Seq<char>) -> (StoreView, Option<Seq<Seq<char>>>) {
    let p = position_of(s.tickets, id);
    if p == -1 {
        (s, None)
    } else {
        (StoreView { tickets: s.tickets.remove(p), ..s }, Some(s.tickets[p].detail))
    }
}

proof fn lemma_position_in_range(s: Seq<TicketView>, id: Seq<char>, i: int)
    requires
        0 <= i,
    ensures
        position_from(s, id, i) == -1 || (i <= position_from(s, id, i) < s.len() && s[position_from(
            s,
            id,
            i,
        )].id == id),
    decreases s.len() - i,
{
    if i < s.len() && s[i].id != id {
        lemma_position_in_range(s, id, i + 1);
    }
}

proof fn lemma_position_found(s: Seq<TicketView>, id: Seq<char>, i: int, p: int)
    requires
        0 <= i <= p < s.len(),
        s[p].id == id,
    ensures
        position_from(s, id, i) != -1,
    decreases p - i,
{
    if s[i].id != id {
        lemma_position_found(s, id, i + 1, p);
    }
}

impl TicketStore {
    pub fn new() -> (r: TicketStore)
        ensures
            r@.in_flight.len() == 0,
            r@.tickets.len() == 0,
    {
        let r = TicketStore { in_flight: Vec::new(), tickets: Vec::new() };
        assert(r@.in_flight =~= Seq::empty());
        assert(r@.tickets =~= Seq::empty());
        r
    }

    /// Whether a ticket with id `ticket_id` exists, pending or completed.
    pub fn has_ticket(&self, ticket_id: &str) -> (r: bool)
        ensures
            r == knows(self@, ticket_id@),
    {
        let target = String::from_str(ticket_id);
        let mut i: usize = 0;
        while i < self.in_flight.len()
            invariant
                i <= self.in_flight.len(),
                target@ == ticket_id@,
                forall|j: int| 0 <= j < i ==> self@.in_flight[j] != ticket_id@,
            decreases self.in_flight.len() - i,
        {
            if self.in_flight[i] == target {
                assert(self@.in_flight[i as int] == ticket_id@);
                return true;
            }
            i = i + 1;
        }
        ticket_position(ticket_id, &self.tickets).is_some()
    }

    /// The spawn decision for a request whose fingerprint is `ticket_id`: true (and
    /// the id recorded as in flight) when no ticket with this id exists yet, so
    /// that the caller starts exactly one job for it.
    pub fn submit_with_id(&mut self, ticket_id: String) -> (spawn: bool)
        ensures
            (final(self)@, spawn) == submission(old(self)@, ticket_id@),
    {
        if self.has_ticket(ticket_id.as_str()) {
            false
        } else {
            let ghost prev = self@;
            self.in_flight.push(ticket_id);
            assert(self@.in_flight =~= prev.in_flight.push(ticket_id@));
            true
        }
    }

    /// Submits a hotplug request for VM `vm_id`: returns its fingerprint and
    /// whether the caller has to start a job for it.
    pub fn submit(&mut self, vm_id: i16, payload_str: String) -> (r: (String, bool))
        ensures
            r.0@ == ticket_id_of(vm_id, payload_str@),
            (final(self)@, r.1) == submission(old(self)@, ticket_id_of(vm_id, payload_str@)),
    {
        let id = generate_ticket(vm_id, payload_str);
        let spawn = self.submit_with_id(id.clone());
        (id, spawn)
    }

    /// Records the outcome of the job for `ticket_id`.
    pub fn complete(&mut self, vm_id: i16, ticket_id: &str, result: Vec<String>)
        ensures
            final(self)@ == completion(old(self)@, vm_id, ticket_id@, texts(result@)),
    {
        let target = String::from_str(ticket_id);
        let ghost s = texts(self.in_flight@);
        let mut still: Vec<String> = Vec::new();
        let mut i: usize = 0;
        while i < self.in_flight.len()
            invariant
                i <= self.in_flight.len(),
                target@ == ticket_id@,
                s == texts(self.in_flight@),
                texts(still@) == without_text(s.subrange(0, i as int), ticket_id@),
            decreases self.in_flight.len() - i,
        {
            let ghost prev = still@;
            assert(s.subrange(0, i as int + 1).drop_last() =~= s.subrange(0, i as int));
            assert(s[i as int] == self.in_flight@[i as int]@);
            if !(self.in_flight[i] == target) {
                still.push(self.in_flight[i].clone());
                assert(texts(still@) =~= texts(prev).push(s[i as int]));
            }
            i = i + 1;
        }
        assert(s.subrange(0, i as int) =~= s);
        self.in_flight = still;
        store_ticket(vm_id, ticket_id, result, &mut self.tickets);
    }

    /// Polls for `ticket_id`: hands out the outcome of the first completed ticket
    /// with this id and removes that ticket; `None` while pending or when unknown.
    pub fn consume(&mut self, ticket_id: &str) -> (r: Option<Vec<String>>)
        ensures
            final(self)@ == consumption(old(self)@, ticket_id@).0,
            match r {
                Some(d) => consumption(old(self)@, ticket_id@).1 == Some(texts(d@)),
                None => consumption(old(self)@, ticket_id@).1 is None,
            },
    {
        match ticket_position(ticket_id, &self.tickets) {
            Some(i) => {
                let ghost prev = self@;
                let t = self.tickets.remove(i);
                assert(self@.tickets =~= prev.tickets.remove(i as int));
                Some(t.pcis_detail)
            },
            None => None,
        }
    }
}

/// Dedup law: two submissions of the same request for the same VM, with no
/// completion between them, yield the same fingerprint; the second never starts a
/// job, and the first starts one exactly when no ticket with that id existed.
pub proof fn lemma_submit_dedup(s: StoreView, vm_id: i16, payload: Seq<char>)
    ensures
        ({
            let id = ticket_id_of(vm_id, payload);
            let (s1, spawn1) = submission(s, id);
            let (s2, spawn2) = submission(s1, ticket_id_of(vm_id, payload));
            &&& spawn1 == !knows(s, id)
            &&& !spawn2
            &&& s2 == s1
            &&& knows(s1, id)
        }),
{
    let id = ticket_id_of(vm_id, payload);
    let s1 = submission(s, id).0;
    if !knows(s, id) {
        assert(s1.in_flight[s1.in_flight.len() - 1] == id);
    }
}

/// Consumption law: when exactly one completed ticket carries `id` (at index `p`),
/// a poll returns its outcome and a second poll finds nothing.
pub proof fn lemma_consume_once(s: StoreView, id: Seq<char>, p: int)
    requires
        0 <= p < s.tickets.len(),
        s.tickets[p].id == id,
        forall|j: int| 0 <= j < s.tickets.len() && j != p ==> s.tickets[j].id != id,
    ensures
        consumption(s, id).1 == Some(s.tickets[p].detail),
        consumption(consumption(s, id).0, id).1 is None,
{
    lemma_position_in_range(s.tickets, id, 0);
    lemma_position_found(s.tickets, id, 0, p);
    let s1 = consumption(s, id).0;
    lemma_position_in_range(s1.tickets, id, 0);
    let k = position_of(s1.tickets, id);
    if k != -1 {
        if k < p {
            assert(s1.tickets[k] == s.tickets[k]);
        } else {
            assert(s1.tickets[k] == s.tickets[k + 1]);
        }
    }
}

} // verus!
