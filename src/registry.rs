//! Discriminator registry: the eight-byte tag that names each event schema.

use vstd::prelude::*;
use vstd::string::StringSliceAdditionalSpecFns;
use sha2::{Digest, Sha256};

verus! {

/// The SHA-256 digest of a byte sequence.
pub uninterp spec fn sha256_of(data: Seq<u8>) -> Seq<u8>;

/// Relies on `sha2::Sha256::digest`: the 32-byte SHA-256 digest of `data`,
/// which depends on the bytes alone.
#[verifier::external_body]
fn sha256(data: &[u8]) -> (r: [u8; 32])
    ensures
        r@ == sha256_of(data@),
{
    Sha256::digest(data).into()
}

/// The bytes of `"event:"`, which precede a schema name in the hashed text.
pub open spec fn event_prefix() -> Seq<u8> {
    seq![101u8, 118u8, 101u8, 110u8, 116u8, 58u8]
}

/// The tag of the schema whose name has the UTF-8 bytes `name`: the first
/// eight bytes of the digest of `"event:" + name`.
pub open spec fn tag_of(name: Seq<u8>) -> Seq<u8> {
    Seq::new(8, |i: int| sha256_of(event_prefix() + name)[i])
}

pub open spec fn created_tag() -> Seq<u8> {
    tag_of("OrderCreated".spec_bytes())
}

pub open spec fn accepted_tag() -> Seq<u8> {
    tag_of("OrderAccepted".spec_bytes())
}

pub open spec fn completed_tag() -> Seq<u8> {
    tag_of("OrderCompleted".spec_bytes())
}

/// Equal names give equal tags, and every tag is eight bytes long.
pub proof fn lemma_tag_deterministic(a: Seq<u8>, b: Seq<u8>)
    requires
        a == b,
    ensures
        tag_of(a) == tag_of(b),
        tag_of(a).len() == 8,
{
}

/// Computes the tag of the schema called `name`.
pub fn event_discriminator(name: &str) -> (r: [u8; 8])
    ensures
        r@ == tag_of(name.spec_bytes()),
{
    let bytes = name.as_bytes();
    let mut text: Vec<u8> = vec![101u8, 118u8, 101u8, 110u8, 116u8, 58u8];
    let mut i: usize = 0;
    while i < bytes.len()
        invariant
            i <= bytes@.len(),
            text@ == event_prefix() + bytes@.take(i as int),
        decreases bytes@.len() - i,
    {
        text.push(bytes[i]);
        i = i + 1;
        assert(text@ =~= event_prefix() + bytes@.take(i as int));
    }
    assert(bytes@.take(bytes@.len() as int) =~= bytes@);
    let h = sha256(text.as_slice());
    let r = [h[0], h[1], h[2], h[3], h[4], h[5], h[6], h[7]];
    assert(r@ =~= tag_of(name.spec_bytes()));
    r
}

/// Whether `tag` is byte for byte the tag `expected`.
pub fn tag_matches(tag: &[u8], expected: &[u8; 8]) -> (r: bool)
    ensures
        r == (tag@ == expected@),
{
    if tag.len() != 8 {
        return false;
    }
    let mut i: usize = 0;
    while i < 8
        invariant
            tag@.len() == 8,
            i <= 8,
            forall|j: int| 0 <= j < i ==> tag@[j] == expected@[j],
        decreases 8 - i,
    {
        if tag[i] != expected[i] {
            return false;
        }
        i = i + 1;
    }
    assert(tag@ =~= expected@);
    true
}

/// The tags of the known schemas, computed once and then only read.
pub struct Registry {
    pub order_created: [u8; 8],
    pub order_accepted: [u8; 8],
    pub order_completed: [u8; 8],
}

impl Registry {
    /// Each tag is the one of its schema's name.
    pub open spec fn wf(&self) -> bool {
        &&& self.order_created@ == created_tag()
        &&& self.order_accepted@ == accepted_tag()
        &&& self.order_completed@ == completed_tag()
    }

    pub fn new() -> (r: Registry)
        ensures
            r.wf(),
    {
        Registry {
            order_created: event_discriminator("OrderCreated"),
            order_accepted: event_discriminator("OrderAccepted"),
            order_completed: event_discriminator("OrderCompleted"),
        }
    }
}

} // verus!
