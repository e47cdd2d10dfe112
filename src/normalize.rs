//! Event normalizer: decoded events with identifiers rendered as text.

use vstd::prelude::*;
use solana_sdk::pubkey::Pubkey;
use crate::decode::{AccountId, DomainEvent, EventView};

verus! {

/// The canonical (base58) text of a 32-byte account identifier.
pub uninterp spec fn account_text_of(id: Seq<u8>) -> Seq<char>;

/// Relies on `Pubkey`'s `Display`: the base58 text of the identifier's
/// bytes, which depends on them alone.
#[verifier::external_body]
fn account_text(id: &[u8; 32]) -> (r: String)
    ensures
        r@ == account_text_of(id@),
{
    Pubkey::new_from_array(*id).to_string()
}

impl AccountId {
    /// The identifier's canonical text.
    pub fn to_text(&self) -> (r: String)
        ensures
            r@ == account_text_of(self.bytes@),
    {
        account_text(&self.bytes)
    }
}

/// An event as it goes to subscribers: its kind and its fields, with
/// identifiers as text.
#[derive(Clone, Debug)]
pub enum WebEvent {
    OrderCreated { order: String, order_id: u64, customer: String, amount: u64 },
    OrderAccepted { order: String, courier: String },
    OrderCompleted { order: String, order_id: u64, courier: String, amount: u64 },
}

/// What a normalized event holds.
pub enum WebView {
    OrderCreated { order: Seq<char>, order_id: u64, customer: Seq<char>, amount: u64 },
    OrderAccepted { order: Seq<char>, courier: Seq<char> },
    OrderCompleted { order: Seq<char>, order_id: u64, courier: Seq<char>, amount: u64 },
}

impl View for WebEvent {
    type V = WebView;

    open spec fn view(&self) -> WebView {
        match self {
            WebEvent::OrderCreated { order, order_id, customer, amount } => WebView::OrderCreated {
                order: order@,
                order_id: *order_id,
                customer: customer@,
                amount: *amount,
            },
            WebEvent::OrderAccepted { order, courier } => WebView::OrderAccepted {
                order: order@,
                courier: courier@,
            },
            WebEvent::OrderCompleted { order, order_id, courier, amount } => WebView::OrderCompleted {
                order: order@,
                order_id: *order_id,
                courier: courier@,
                amount: *amount,
            },
        }
    }
}

pub open spec fn opt_web_view(e: Option<WebEvent>) -> Option<WebView> {
    match e {
        Some(w) => Some(w@),
        None => None,
    }
}

/// The normalized form of a decoded event: identifiers as their canonical
/// text, numbers unchanged.
pub open spec fn normalize_spec(e: EventView) -> WebView {
    match e {
        EventView::OrderCreated { order, order_id, customer, amount } => WebView::OrderCreated {
            order: account_text_of(order),
            order_id,
            customer: account_text_of(customer),
            amount,
        },
        EventView::OrderAccepted { order, courier } => WebView::OrderAccepted {
            order: account_text_of(order),
            courier: account_text_of(courier),
        },
        EventView::OrderCompleted { order, order_id, courier, amount } => WebView::OrderCompleted {
            order: account_text_of(order),
            order_id,
            courier: account_text_of(courier),
            amount,
        },
    }
}

impl WebEvent {
    /// The name of the event's kind, as the wire form's `type` field gives it.
    pub fn kind_name(&self) -> (r: &'static str)
        ensures
            r@ == match self@ {
                WebView::OrderCreated { .. } => "OrderCreated"@,
                WebView::OrderAccepted { .. } => "OrderAccepted"@,
                WebView::OrderCompleted { .. } => "OrderCompleted"@,
            },
    {
        match self {
            WebEvent::OrderCreated { .. } => "OrderCreated",
            WebEvent::OrderAccepted { .. } => "OrderAccepted",
            WebEvent::OrderCompleted { .. } => "OrderCompleted",
        }
    }

    /// A copy of the event with the same contents.
    pub fn duplicate(&self) -> (r: WebEvent)
        ensures
            r@ == self@,
    {
        match self {
            WebEvent::OrderCreated { order, order_id, customer, amount } => WebEvent::OrderCreated {
                order: order.clone(),
                order_id: *order_id,
                customer: customer.clone(),
                amount: *amount,
            },
            WebEvent::OrderAccepted { order, courier } => WebEvent::OrderAccepted {
                order: order.clone(),
                courier: courier.clone(),
            },
            WebEvent::OrderCompleted { order, order_id, courier, amount } => WebEvent::OrderCompleted {
                order: order.clone(),
                order_id: *order_id,
                courier: courier.clone(),
                amount: *amount,
            },
        }
    }
}

/// Renders a decoded event for the wire.
pub fn normalize(e: &DomainEvent) -> (r: WebEvent)
    ensures
        r@ == normalize_spec(e@),
{
    match e {
        DomainEvent::OrderCreated(c) => WebEvent::OrderCreated {
            order: c.order.to_text(),
            order_id: c.order_id,
            customer: c.customer.to_text(),
            amount: c.amount,
        },
        DomainEvent::OrderAccepted(a) => WebEvent::OrderAccepted {
            order: a.order.to_text(),
            courier: a.courier.to_text(),
        },
        DomainEvent::OrderCompleted(c) => WebEvent::OrderCompleted {
            order: c.order.to_text(),
            order_id: c.order_id,
            courier: c.courier.to_text(),
            amount: c.amount,
        },
    }
}

} // verus!
