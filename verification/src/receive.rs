//! Receive-request handling: an inbound request carries either a
//! portable reference (content hash plus provider address hint) or a
//! bare hash with an optional provider identity.  Classification
//! decides whether the request is well-formed and what the download
//! orchestrator is invoked with.
use vstd::prelude::*;
use crate::peerid::{node_id_of_str, parse_node_id};
use crate::notify::NotifyMsg;

verus! {

use vstd::string::StrSliceExecFns;

/// A hexadecimal digit.
pub open spec fn is_hex_char(c: char) -> bool {
    (48 <= c as u32 <= 57) || (97 <= c as u32 <= 102) || (65 <= c as u32 <= 70)
}

/// The canonical spelling of a content hash: exactly 64 hexadecimal
/// digits.
pub open spec fn is_hash_str(s: Seq<char>) -> bool {
    s.len() == 64 && forall|i: int| 0 <= i < s.len() ==> is_hex_char(#[trigger] s[i])
}

/// Whether `s` spells a content hash.
pub fn is_valid_hash(s: &String) -> (b: bool)
    ensures
        b == is_hash_str(s@),
{
    let n = s.as_str().unicode_len();
    if n != 64 {
        return false;
    }
    let mut i: usize = 0;
    while i < n
        invariant
            n == s@.len(),
            i <= n,
            forall|j: int| 0 <= j < i ==> is_hex_char(#[trigger] s@[j]),
        decreases n - i,
    {
        let c = s.as_str().get_char(i);
        let u = c as u32;
        if !((u >= 48 && u <= 57) || (u >= 97 && u <= 102) || (u >= 65 && u <= 70)) {
            return false;
        }
        i = i + 1;
    }
    true
}

/// The body of an inbound receive request, already decoded from its
/// carrier format.
pub enum ReceiveInput {
    /// A portable reference: content hash plus the identity of a
    /// provider known to hold the blob.
    Reference { hash: String, provider: String },
    /// A bare content hash with an optional provider identity.
    BareHash { hash: String, provider_node_id: Option<String> },
    /// An inbound notification on the notify protocol: its hash and
    /// provider identity are read the same way as a bare hash.
    Notification { msg: NotifyMsg },
    /// Neither a reference nor a hash was present.
    Empty,
}

/// What the node does with a receive request.
pub enum ReceiveDecision {
    /// Invoke the orchestrator on `hash`, with `fallback` as an extra
    /// candidate provider beside the directory.
    Proceed { hash: String, fallback: Option<String> },
    /// The request is rejected as a client error.
    Malformed,
}

/// Classifies a receive request.  A reference whose hash or address
/// does not parse is malformed, as is a bare hash that does not spell
/// a hash; an unparsable provider identity beside a valid bare hash or
/// notification is ignored (best effort), and an empty request is
/// malformed.
pub fn classify_receive(input: ReceiveInput) -> (d: ReceiveDecision)
    ensures
        (input matches ReceiveInput::Empty ==> d is Malformed),
        (input matches ReceiveInput::Reference { hash, provider } ==> (if is_hash_str(hash@)
            && node_id_of_str(provider@) is Some {
            d matches ReceiveDecision::Proceed { hash: h, fallback } && h == hash && (
            fallback matches Some(f) && Some(f@) == node_id_of_str(provider@))
        } else {
            d is Malformed
        })),
        (input matches ReceiveInput::BareHash { hash, provider_node_id } ==> (if is_hash_str(
            hash@,
        ) {
            d matches ReceiveDecision::Proceed { hash: h, fallback } && h == hash && (match (
            provider_node_id, fallback) {
                (None, None) => true,
                (Some(p), None) => node_id_of_str(p@) is None,
                (Some(p), Some(f)) => node_id_of_str(p@) == Some(f@),
                (None, Some(_)) => false,
            })
        } else {
            d is Malformed
        })),
        (input matches ReceiveInput::Notification { msg } ==> (if is_hash_str(msg.hash@) {
            d matches ReceiveDecision::Proceed { hash: h, fallback } && h == msg.hash && (match (
            msg.provider_node_id, fallback) {
                (None, None) => true,
                (Some(p), None) => node_id_of_str(p@) is None,
                (Some(p), Some(f)) => node_id_of_str(p@) == Some(f@),
                (None, Some(_)) => false,
            })
        } else {
            d is Malformed
        })),
{
    match input {
        ReceiveInput::Empty => ReceiveDecision::Malformed,
        ReceiveInput::Notification { msg } => {
            if !is_valid_hash(&msg.hash) {
                return ReceiveDecision::Malformed;
            }
            let fallback = match msg.provider_node_id {
                None => None,
                Some(p) => parse_node_id(p.as_str()),
            };
            ReceiveDecision::Proceed { hash: msg.hash, fallback }
        },
        ReceiveInput::Reference { hash, provider } => {
            if !is_valid_hash(&hash) {
                return ReceiveDecision::Malformed;
            }
            match parse_node_id(provider.as_str()) {
                Some(id) => ReceiveDecision::Proceed { hash, fallback: Some(id) },
                None => ReceiveDecision::Malformed,
            }
        },
        ReceiveInput::BareHash { hash, provider_node_id } => {
            if !is_valid_hash(&hash) {
                return ReceiveDecision::Malformed;
            }
            let fallback = match provider_node_id {
                None => None,
                Some(p) => parse_node_id(p.as_str()),
            };
            ReceiveDecision::Proceed { hash, fallback }
        },
    }
}

} // verus!
