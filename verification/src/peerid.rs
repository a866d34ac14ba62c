//! Peer node identities: printable strings naming the public key of a
//! peer.  Parsing and re-encoding an identity is delegated to the key
//! implementation; everything downstream treats the canonical form as
//! an opaque string.
use vstd::prelude::*;

verus! {

/// What the key implementation makes of an identity string: `None`
/// when the string decodes to no valid public key, otherwise the
/// canonical printable form of that key.  The result depends on the
/// characters alone.
pub uninterp spec fn node_id_of_str(s: Seq<char>) -> Option<Seq<char>>;

/// Relies on iroh-base's `PublicKey::from_str` and `Display`: the
/// string is decoded (hexadecimal or base32) and checked to name a
/// valid public key, then re-encoded as 64 lowercase hexadecimal
/// digits.  Both depend on the characters of `s` alone.
#[verifier::external_body]
pub(crate) fn parse_node_id(s: &str) -> (r: Option<String>)
    ensures
        (match r {
            None => node_id_of_str(s@) is None,
            Some(id) => node_id_of_str(s@) == Some(id@),
        }),
        r matches Some(id) ==> id@.len() == 64,
{
    match s.parse::<iroh_base::PublicKey>() {
        Ok(k) => Some(k.to_string()),
        Err(_) => None,
    }
}

} // verus!
