//! Event decoder: fixed-width records behind a schema tag.

use vstd::prelude::*;
use crate::registry::{Registry, created_tag, accepted_tag, completed_tag, tag_matches};

verus! {

/// A 32-byte account identifier, kept as raw bytes.
pub struct AccountId {
    pub bytes: [u8; 32],
}

pub struct OrderCreated {
    pub order: AccountId,
    pub order_id: u64,
    pub customer: AccountId,
    pub amount: u64,
}

pub struct OrderAccepted {
    pub order: AccountId,
    pub courier: AccountId,
}

pub struct OrderCompleted {
    pub order: AccountId,
    pub order_id: u64,
    pub courier: AccountId,
    pub amount: u64,
}

/// A decoded event of one of the known schemas.
pub enum DomainEvent {
    OrderCreated(OrderCreated),
    OrderAccepted(OrderAccepted),
    OrderCompleted(OrderCompleted),
}

/// What a decoded event holds, with identifiers as byte sequences.
pub enum EventView {
    OrderCreated { order: Seq<u8>, order_id: u64, customer: Seq<u8>, amount: u64 },
    OrderAccepted { order: Seq<u8>, courier: Seq<u8> },
    OrderCompleted { order: Seq<u8>, order_id: u64, courier: Seq<u8>, amount: u64 },
}

impl View for DomainEvent {
    type V = EventView;

    open spec fn view(&self) -> EventView {
        match self {
            DomainEvent::OrderCreated(e) => EventView::OrderCreated {
                order: e.order.bytes@,
                order_id: e.order_id,
                customer: e.customer.bytes@,
                amount: e.amount,
            },
            DomainEvent::OrderAccepted(e) => EventView::OrderAccepted {
                order: e.order.bytes@,
                courier: e.courier.bytes@,
            },
            DomainEvent::OrderCompleted(e) => EventView::OrderCompleted {
                order: e.order.bytes@,
                order_id: e.order_id,
                courier: e.courier.bytes@,
                amount: e.amount,
            },
        }
    }
}

pub open spec fn opt_event_view(e: Option<DomainEvent>) -> Option<EventView> {
    match e {
        Some(d) => Some(d@),
        None => None,
    }
}

/// Byte width of an `OrderCreated` record.
pub const CREATED_LEN: usize = 80;

/// Byte width of an `OrderAccepted` record.
pub const ACCEPTED_LEN: usize = 64;

/// Byte width of an `OrderCompleted` record.
pub const COMPLETED_LEN: usize = 80;

pub open spec fn pow256(k: nat) -> nat
    decreases k,
{
    if k == 0 {
        1
    } else {
        256 * pow256((k - 1) as nat)
    }
}

/// The unsigned number that `b` encodes, least significant byte first.
pub open spec fn le_value(b: Seq<u8>) -> nat
    decreases b.len(),
{
    if b.len() == 0 {
        0
    } else {
        b[0] as nat + 256 * le_value(b.drop_first())
    }
}

/// The `k` bytes that encode `n`, least significant byte first.
pub open spec fn le_bytes(n: nat, k: nat) -> Seq<u8>
    decreases k,
{
    if k == 0 {
        Seq::empty()
    } else {
        seq![(n % 256) as u8] + le_bytes(n / 256, (k - 1) as nat)
    }
}

pub open spec fn field_u64(b: Seq<u8>, at: int) -> u64 {
    le_value(b.subrange(at, at + 8)) as u64
}

pub open spec fn decode_created(body: Seq<u8>) -> Option<EventView> {
    if body.len() == CREATED_LEN {
        Some(EventView::OrderCreated {
            order: body.subrange(0, 32),
            order_id: field_u64(body, 32),
            customer: body.subrange(40, 72),
            amount: field_u64(body, 72),
        })
    } else {
        None
    }
}

pub open spec fn decode_accepted(body: Seq<u8>) -> Option<EventView> {
    if body.len() == ACCEPTED_LEN {
        Some(EventView::OrderAccepted { order: body.subrange(0, 32), courier: body.subrange(32, 64) })
    } else {
        None
    }
}

pub open spec fn decode_completed(body: Seq<u8>) -> Option<EventView> {
    if body.len() == COMPLETED_LEN {
        Some(EventView::OrderCompleted {
            order: body.subrange(0, 32),
            order_id: field_u64(body, 32),
            courier: body.subrange(40, 72),
            amount: field_u64(body, 72),
        })
    } else {
        None
    }
}

/// The event that a payload with this tag and body stands for: the first
/// schema whose tag matches decides, and its body must have exactly the
/// schema's width.
pub open spec fn decode_spec(tag: Seq<u8>, body: Seq<u8>) -> Option<EventView> {
    if tag == created_tag() {
        decode_created(body)
    } else if tag == accepted_tag() {
        decode_accepted(body)
    } else if tag == completed_tag() {
        decode_completed(body)
    } else {
        None
    }
}

/// The canonical encoding of an `OrderCreated` record.
pub open spec fn encode_created(order: Seq<u8>, order_id: u64, customer: Seq<u8>, amount: u64) -> Seq<u8> {
    order + le_bytes(order_id as nat, 8) + customer + le_bytes(amount as nat, 8)
}

proof fn lemma_le_value_bound(b: Seq<u8>)
    ensures
        le_value(b) < pow256(b.len()),
    decreases b.len(),
{
    if b.len() > 0 {
        lemma_le_value_bound(b.drop_first());
        let r = le_value(b.drop_first());
        let p = pow256((b.len() - 1) as nat);
        assert(b[0] as nat + 256 * r < 256 * p) by (nonlinear_arith)
            requires r < p, b[0] < 256;
    }
}

proof fn lemma_le_round_trip(n: nat, k: nat)
    requires
        n < pow256(k),
    ensures
        le_bytes(n, k).len() == k,
        le_value(le_bytes(n, k)) == n,
    decreases k,
{
    if k > 0 {
        let p = pow256((k - 1) as nat);
        assert(n / 256 < p) by (nonlinear_arith)
            requires n < 256 * p;
        lemma_le_round_trip(n / 256, (k - 1) as nat);
        let b = le_bytes(n, k);
        assert(b.drop_first() =~= le_bytes(n / 256, (k - 1) as nat));
        assert(n % 256 + 256 * (n / 256) == n) by (nonlinear_arith);
    }
}

/// Encoding the fields of an `OrderCreated` record and decoding the result
/// under the `OrderCreated` tag gives back the same identifiers and numbers.
pub proof fn lemma_created_round_trip(order: Seq<u8>, order_id: u64, customer: Seq<u8>, amount: u64)
    requires
        order.len() == 32,
        customer.len() == 32,
    ensures
        decode_spec(created_tag(), encode_created(order, order_id, customer, amount))
            == Some(EventView::OrderCreated { order, order_id, customer, amount }),
{
    reveal_with_fuel(pow256, 9);
    lemma_le_round_trip(order_id as nat, 8);
    lemma_le_round_trip(amount as nat, 8);
    let b = encode_created(order, order_id, customer, amount);
    assert(b.subrange(0, 32) =~= order);
    assert(b.subrange(32, 40) =~= le_bytes(order_id as nat, 8));
    assert(b.subrange(40, 72) =~= customer);
    assert(b.subrange(72, 80) =~= le_bytes(amount as nat, 8));
}

/// A payload whose tag is none of the known schemas' decodes to nothing.
pub proof fn lemma_unknown_tag_decodes_to_nothing(tag: Seq<u8>, body: Seq<u8>)
    requires
        tag != created_tag(),
        tag != accepted_tag(),
        tag != completed_tag(),
    ensures
        decode_spec(tag, body) is None,
{
}

/// Reads the little-endian number in `b[at..at + 8]`.
pub fn read_u64_le(b: &[u8], at: usize) -> (r: u64)
    requires
        at + 8 <= b@.len(),
    ensures
        r == field_u64(b@, at as int),
{
    let n: usize = b.len();
    let ghost s = b@.subrange(at as int, at + 8);
    let mut acc: u64 = 0;
    let mut k: usize = 8;
    proof {
        reveal_with_fuel(pow256, 9);
        assert(s.subrange(8, 8) =~= Seq::<u8>::empty());
    }
    while k > 0
        invariant
            k <= 8,
            n == b@.len(),
            at + 8 <= b@.len(),
            s == b@.subrange(at as int, at + 8),
            acc as nat == le_value(s.subrange(k as int, 8)),
        decreases k,
    {
        let ghost t = s.subrange(k - 1, 8);
        proof {
            assert(t.drop_first() =~= s.subrange(k as int, 8));
            lemma_le_value_bound(s.subrange(k as int, 8));
            lemma_pow_mono((8 - k) as nat, 7);
            reveal_with_fuel(pow256, 8);
            assert(acc < 0x100000000000000u64);
        }
        let byte = b[at + k - 1];
        acc = byte as u64 + 256 * acc;
        k = k - 1;
    }
    assert(s.subrange(0, 8) =~= s);
    acc
}

proof fn lemma_pow_mono(a: nat, b: nat)
    requires
        a <= b,
    ensures
        pow256(a) <= pow256(b),
    decreases b,
{
    if a < b {
        lemma_pow_mono(a, (b - 1) as nat);
    }
}

fn read_account(b: &[u8], at: usize) -> (r: AccountId)
    requires
        at + 32 <= b@.len(),
    ensures
        r.bytes@ == b@.subrange(at as int, at + 32),
{
    let n: usize = b.len();
    let mut bytes = [0u8; 32];
    let mut i: usize = 0;
    while i < 32
        invariant
            i <= 32,
            n == b@.len(),
            at + 32 <= b@.len(),
            forall|j: int| 0 <= j < i ==> bytes@[j] == b@[at + j],
        decreases 32 - i,
    {
        bytes[i] = b[at + i];
        i = i + 1;
    }
    assert(bytes@ =~= b@.subrange(at as int, at + 32));
    AccountId { bytes }
}

/// Decodes a payload body: the tag picks the schema, and the body must have
/// exactly its width.
pub fn decode_event(reg: &Registry, tag: &[u8], body: &[u8]) -> (r: Option<DomainEvent>)
    requires
        reg.wf(),
    ensures
        opt_event_view(r) == decode_spec(tag@, body@),
{
    if tag_matches(tag, &reg.order_created) {
        if body.len() != CREATED_LEN {
            return None;
        }
        let e = OrderCreated {
            order: read_account(body, 0),
            order_id: read_u64_le(body, 32),
            customer: read_account(body, 40),
            amount: read_u64_le(body, 72),
        };
        Some(DomainEvent::OrderCreated(e))
    } else if tag_matches(tag, &reg.order_accepted) {
        if body.len() != ACCEPTED_LEN {
            return None;
        }
        let e = OrderAccepted { order: read_account(body, 0), courier: read_account(body, 32) };
        Some(DomainEvent::OrderAccepted(e))
    } else if tag_matches(tag, &reg.order_completed) {
        if body.len() != COMPLETED_LEN {
            return None;
        }
        let e = OrderCompleted {
            order: read_account(body, 0),
            order_id: read_u64_le(body, 32),
            courier: read_account(body, 40),
            amount: read_u64_le(body, 72),
        };
        Some(DomainEvent::OrderCompleted(e))
    } else {
        None
    }
}

} // verus!
