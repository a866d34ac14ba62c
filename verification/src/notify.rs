//! Notify fan-out: after a blob is ingested, peers learn of it through
//! a direct point-to-point message, falling back to an HTTP request
//! per peer; with no resolved address at all, every statically
//! configured peer gets the HTTP request directly.
use vstd::prelude::*;

verus! {

use vstd::string::StringSliceAdditionalSpecFns;
use vstd::string::StrSliceExecFns;

/// The notification a node sends out after ingesting a blob, and the
/// message a peer decodes on its notify protocol.
pub struct NotifyMsg {
    pub hash: String,
    pub filename: String,
    pub content_type: String,
    pub provider_node_id: Option<String>,
}

/// The application-level protocol identifier of the notify protocol.
pub open spec fn notify_alpn_spec() -> Seq<u8> {
    "/iroh-demo/image-notify/1".spec_bytes()
}

/// Hard cap on the size of an inbound notify message, in bytes,
/// bounding what the receive handler reads from one stream.
pub const NOTIFY_MAX_BYTES: usize = 262144;

/// The notify protocol identifier as bytes on the wire.
pub fn notify_alpn() -> (r: Vec<u8>)
    ensures
        r@ == notify_alpn_spec(),
{
    "/iroh-demo/image-notify/1".as_bytes_vec()
}

/// How one peer is notified.
pub enum NotifyRoute {
    /// No resolved address: a single HTTP notification to this URL.
    HttpOnly { url: String },
    /// A resolved address: point-to-point first, HTTP to the same URL
    /// only if that send fails.
    P2pWithHttpFallback { url: String, node_id: String },
}

/// Plans the fan-out of one notification.  With an empty
/// resolved-address directory every configured peer URL gets exactly
/// one HTTP-only route and the point-to-point path is never attempted;
/// otherwise each directory entry gets a point-to-point route with
/// HTTP as its per-peer fallback, in directory order.
pub fn plan_notify(directory: &Vec<(String, String)>, configured_urls: &Vec<String>) -> (plan: Vec<
    NotifyRoute,
>)
    ensures
        directory@.len() == 0 ==> plan@.len() == configured_urls@.len() && (forall|i: int|
            0 <= i < plan@.len() ==> (#[trigger] plan@[i] matches NotifyRoute::HttpOnly { url }
                && url@ == configured_urls@[i]@)),
        directory@.len() > 0 ==> plan@.len() == directory@.len() && (forall|i: int|
            0 <= i < plan@.len() ==> (#[trigger] plan@[i] matches NotifyRoute::P2pWithHttpFallback {
                url,
                node_id,
            } && url@ == directory@[i].0@ && node_id@ == directory@[i].1@)),
{
    let mut plan: Vec<NotifyRoute> = Vec::new();
    if directory.len() == 0 {
        let mut i: usize = 0;
        while i < configured_urls.len()
            invariant
                i <= configured_urls@.len(),
                plan@.len() == i,
                forall|j: int|
                    0 <= j < i ==> (#[trigger] plan@[j] matches NotifyRoute::HttpOnly { url }
                        && url@ == configured_urls@[j]@),
            decreases configured_urls@.len() - i,
        {
            plan.push(NotifyRoute::HttpOnly { url: configured_urls[i].clone() });
            i = i + 1;
        }
    } else {
        let mut i: usize = 0;
        while i < directory.len()
            invariant
                i <= directory@.len(),
                plan@.len() == i,
                forall|j: int|
                    0 <= j < i ==> (#[trigger] plan@[j]
                        matches NotifyRoute::P2pWithHttpFallback { url, node_id } && url@
                        == directory@[j].0@ && node_id@ == directory@[j].1@),
            decreases directory@.len() - i,
        {
            plan.push(
                NotifyRoute::P2pWithHttpFallback {
                    url: directory[i].0.clone(),
                    node_id: directory[i].1.clone(),
                },
            );
            i = i + 1;
        }
    }
    plan
}

/// Relies on rand's `thread_rng` and `Rng::gen_range`: a uniformly
/// drawn sample, always inside the inclusive range.
#[verifier::external_body]
fn sample_inclusive(lo: u64, hi: u64) -> (r: u64)
    requires
        lo <= hi,
    ensures
        lo <= r <= hi,
{
    rand::Rng::gen_range(&mut rand::thread_rng(), lo..=hi)
}

/// Decides the artificial latency injected before a send: none when
/// both configured bounds are zero, otherwise a random duration (in
/// milliseconds) between the lower bound and the larger of the two
/// bounds.  The draw only ever affects timing, never what is sent.
pub fn artificial_delay(latency_min: u64, latency_max: u64) -> (d: Option<u64>)
    ensures
        (d is None) == (crate::state::max64(latency_min, latency_max) == 0),
        d matches Some(ms) ==> latency_min <= ms <= crate::state::max64(latency_min, latency_max),
{
    let hi = if latency_max > latency_min {
        latency_max
    } else {
        latency_min
    };
    if hi == 0 {
        None
    } else {
        Some(sample_inclusive(latency_min, hi))
    }
}

} // verus!
