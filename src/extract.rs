//! Log line extractor: the binary payload embedded in one log line.

use vstd::prelude::*;
use vstd::string::StrSliceExecFns;
use base64::{engine::general_purpose, Engine as _};

verus! {

/// What standard base64 (with padding) decodes `s` to, or `None` where `s`
/// is not valid base64.
pub uninterp spec fn base64_decoded(s: Seq<char>) -> Option<Seq<u8>>;

/// Relies on `base64::engine::general_purpose::STANDARD.decode`: the bytes
/// that `s` encodes, or an error; the outcome depends on `s` alone.
#[verifier::external_body]
fn decode_base64(s: &str) -> (r: Option<Vec<u8>>)
    ensures
        match r {
            Some(v) => base64_decoded(s@) == Some(v@),
            None => base64_decoded(s@) is None,
        },
{
    general_purpose::STANDARD.decode(s).ok()
}

/// The text that marks a log line as carrying a payload: `"Program data: "`.
pub open spec fn marker() -> Seq<char> {
    seq!['P', 'r', 'o', 'g', 'r', 'a', 'm', ' ', 'd', 'a', 't', 'a', ':', ' ']
}

pub const MARKER_LEN: usize = 14;

/// A payload split into its eight-byte tag and the body after it.
pub struct Envelope {
    pub tag: [u8; 8],
    pub body: Vec<u8>,
}

impl View for Envelope {
    type V = (Seq<u8>, Seq<u8>);

    open spec fn view(&self) -> (Seq<u8>, Seq<u8>) {
        (self.tag@, self.body@)
    }
}

pub open spec fn opt_envelope_view(e: Option<Envelope>) -> Option<(Seq<u8>, Seq<u8>)> {
    match e {
        Some(v) => Some(v@),
        None => None,
    }
}

/// The envelope of a decoded payload: none under eight bytes.
pub open spec fn envelope_spec(bytes: Seq<u8>) -> Option<(Seq<u8>, Seq<u8>)> {
    if bytes.len() >= 8 {
        Some((bytes.take(8), bytes.skip(8)))
    } else {
        None
    }
}

/// The text after the marker, where the line begins with it.
pub open spec fn payload_text(line: Seq<char>) -> Option<Seq<char>> {
    if line.len() >= MARKER_LEN && line.take(MARKER_LEN as int) == marker() {
        Some(line.skip(MARKER_LEN as int))
    } else {
        None
    }
}

/// The envelope that a log line carries, if any.
pub open spec fn extract_spec(line: Seq<char>) -> Option<(Seq<u8>, Seq<u8>)> {
    match payload_text(line) {
        Some(text) => match base64_decoded(text) {
            Some(bytes) => envelope_spec(bytes),
            None => None,
        },
        None => None,
    }
}

/// Returns the text after the marker, or `None` where `line` does not begin
/// with it.
pub fn strip_marker(line: &str) -> (r: Option<&str>)
    ensures
        match r {
            Some(t) => payload_text(line@) == Some(t@),
            None => payload_text(line@) is None,
        },
{
    let m: [char; 14] = ['P', 'r', 'o', 'g', 'r', 'a', 'm', ' ', 'd', 'a', 't', 'a', ':', ' '];
    assert(m@ =~= marker());
    let n = line.unicode_len();
    if n < MARKER_LEN {
        return None;
    }
    let mut i: usize = 0;
    while i < MARKER_LEN
        invariant
            i <= MARKER_LEN,
            n == line@.len(),
            n >= MARKER_LEN,
            m@ == marker(),
            forall|j: int| 0 <= j < i ==> line@[j] == marker()[j],
        decreases MARKER_LEN - i,
    {
        if line.get_char(i) != m[i] {
            assert(line@.take(MARKER_LEN as int)[i as int] != marker()[i as int]);
            return None;
        }
        i = i + 1;
    }
    assert(line@.take(MARKER_LEN as int) =~= marker());
    let t = line.substring_char(MARKER_LEN, n);
    assert(t@ =~= line@.skip(MARKER_LEN as int));
    Some(t)
}

/// Splits decoded payload bytes into tag and body; `None` under eight bytes.
pub fn envelope_from_bytes(bytes: &[u8]) -> (r: Option<Envelope>)
    ensures
        opt_envelope_view(r) == envelope_spec(bytes@),
{
    if bytes.len() < 8 {
        return None;
    }
    let tag = [bytes[0], bytes[1], bytes[2], bytes[3], bytes[4], bytes[5], bytes[6], bytes[7]];
    let mut body: Vec<u8> = Vec::new();
    let mut i: usize = 8;
    while i < bytes.len()
        invariant
            8 <= i <= bytes@.len(),
            body@ == bytes@.subrange(8, i as int),
        decreases bytes@.len() - i,
    {
        body.push(bytes[i]);
        i = i + 1;
        assert(body@ =~= bytes@.subrange(8, i as int));
    }
    assert(tag@ =~= bytes@.take(8));
    assert(body@ =~= bytes@.skip(8));
    Some(Envelope { tag, body })
}

/// The envelope that one log line carries: lines without the marker, with
/// text that is not valid base64, or with a payload under eight bytes give
/// `None`.
pub fn extract_payload(line: &str) -> (r: Option<Envelope>)
    ensures
        opt_envelope_view(r) == extract_spec(line@),
{
    match strip_marker(line) {
        Some(text) => match decode_base64(text) {
            Some(bytes) => envelope_from_bytes(bytes.as_slice()),
            None => None,
        },
        None => None,
    }
}

} // verus!
