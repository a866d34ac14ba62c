//! Transfer-state tracker: the single live record of the current
//! transfer, read by status queries and written by the orchestrator.
//!
//! The record keeps bytes-received monotone, progress as a whole
//! percentage in `0..=100`, and a contribution map from provider
//! identifier to the set of labels describing what that provider
//! supplied.
use vstd::prelude::*;
use crate::strkv::{kv_find, kv_get, kv_unique, lemma_kv_get_at, lemma_kv_get_absent};

verus! {

/// Labels recorded for key `k`, as character sequences; a missing key
/// reads as the empty sequence.
pub open spec fn cm_labels(s: Seq<(String, Vec<String>)>, k: Seq<char>) -> Seq<Seq<char>> {
    match kv_get(s, k) {
        None => Seq::empty(),
        Some(v) => v@.map_values(|x: String| x@),
    }
}

/// Whether the sequence holds an element spelling `l`.
pub open spec fn has_label(ls: Seq<Seq<char>>, l: Seq<char>) -> bool {
    exists|i: int| 0 <= i < ls.len() && ls[i] == l
}

/// Status of the node's current transfer.
///
/// `has_image` is the completion flag: it is set exactly once per
/// transfer, after the blob has been fully received and handed to the
/// local export step.
#[verifier::ext_equal]
pub struct TransferState {
    pub node_name: String,
    pub node_addr: Option<String>,
    pub has_image: bool,
    pub current_filename: Option<String>,
    pub content_type: Option<String>,
    pub current_hash: Option<String>,
    pub bytes_total: Option<u64>,
    pub bytes_received: u64,
    /// Progress as a whole percentage, `0..=100`.
    pub progress: u8,
    pub stripe_providers: Vec<(String, Vec<String>)>,
}

impl TransferState {
    /// Progress invariant: bytes received never exceed a known total,
    /// progress is the received share of the total as a percentage,
    /// 100 exactly when complete, and provider keys are distinct.
    pub open spec fn wf(self) -> bool {
        &&& self.progress <= 100
        &&& (match self.bytes_total {
            Some(t) => self.bytes_received <= t,
            None => true,
        })
        &&& (self.has_image ==> self.progress == 100 && self.bytes_total == Some(
            self.bytes_received,
        ))
        &&& (!self.has_image ==> match self.bytes_total {
            None => self.progress == 0,
            Some(t) => self.progress == if t > 0 {
                (100 * self.bytes_received as int) / (t as int)
            } else {
                0
            },
        })
        &&& kv_unique(self.stripe_providers@)
    }

    /// A fresh record for a node that holds nothing yet.
    pub fn new(node_name: String, node_addr: Option<String>) -> (r: TransferState)
        ensures
            r.wf(),
            r.node_name == node_name,
            r.node_addr == node_addr,
            !r.has_image,
            r.current_filename is None,
            r.content_type is None,
            r.current_hash is None,
            r.bytes_total is None,
            r.bytes_received == 0,
            r.progress == 0,
            r.stripe_providers@ =~= Seq::<(String, Vec<String>)>::empty(),
    {
        TransferState {
            node_name,
            node_addr,
            has_image: false,
            current_filename: None,
            content_type: None,
            current_hash: None,
            bytes_total: None,
            bytes_received: 0,
            progress: 0,
            stripe_providers: Vec::new(),
        }
    }

    /// Begins a new transfer keyed by `hash`: every progress field is
    /// cleared, the completion flag drops, and the contribution map is
    /// emptied.  The node's own identity fields are kept.
    pub fn reset(&mut self, hash: String, filename: String, content_type: String)
        ensures
            final(self).wf(),
            final(self).node_name == old(self).node_name,
            final(self).node_addr == old(self).node_addr,
            !final(self).has_image,
            final(self).current_filename == Some(filename),
            final(self).content_type == Some(content_type),
            final(self).current_hash == Some(hash),
            final(self).bytes_total is None,
            final(self).bytes_received == 0,
            final(self).progress == 0,
            final(self).stripe_providers@ =~= Seq::<(String, Vec<String>)>::empty(),
            fresh_for(*final(self), hash, filename, content_type),
    {
        self.has_image = false;
        self.current_filename = Some(filename);
        self.content_type = Some(content_type);
        self.current_hash = Some(hash);
        self.bytes_total = None;
        self.bytes_received = 0;
        self.progress = 0;
        self.stripe_providers = Vec::new();
    }

    /// Drops every partial-progress field while a transfer stays in
    /// flight, so that nothing of an aborted attempt remains visible.
    pub fn clear_partial(&mut self)
        ensures
            final(self).wf(),
            !final(self).has_image,
            final(self).bytes_total is None,
            final(self).bytes_received == 0,
            final(self).progress == 0,
            final(self).stripe_providers@ =~= Seq::<(String, Vec<String>)>::empty(),
            final(self).node_name == old(self).node_name,
            final(self).node_addr == old(self).node_addr,
            final(self).current_filename == old(self).current_filename,
            final(self).content_type == old(self).content_type,
            final(self).current_hash == old(self).current_hash,
    {
        self.has_image = false;
        self.bytes_total = None;
        self.bytes_received = 0;
        self.progress = 0;
        self.stripe_providers = Vec::new();
    }

    /// Records a cumulative progress report.  Bytes received only ever
    /// grow (late, out-of-order reports are absorbed by taking the
    /// maximum) and are capped at the total once the total is known;
    /// progress is recomputed whenever the total is known.
    pub fn record_progress(&mut self, received: u64, total: Option<u64>)
        requires
            old(self).wf(),
            !old(self).has_image,
        ensures
            final(self).wf(),
            final(self).bytes_total == (if total is Some {
                total
            } else {
                old(self).bytes_total
            }),
            final(self).bytes_received == (match final(self).bytes_total {
                Some(t) => min64(max64(old(self).bytes_received, received), t),
                None => max64(old(self).bytes_received, received),
            }),
            final(self).node_name == old(self).node_name,
            final(self).node_addr == old(self).node_addr,
            final(self).has_image == old(self).has_image,
            final(self).current_filename == old(self).current_filename,
            final(self).content_type == old(self).content_type,
            final(self).current_hash == old(self).current_hash,
            final(self).stripe_providers == old(self).stripe_providers,
    {
        if let Some(t) = total {
            self.bytes_total = Some(t);
        }
        let grown = if received > self.bytes_received {
            received
        } else {
            self.bytes_received
        };
        match self.bytes_total {
            Some(t) => {
                self.bytes_received = if grown > t {
                    t
                } else {
                    grown
                };
                if t > 0 {
                    let pct: u64 = (((100 as u128 * self.bytes_received as u128) / t as u128)
                        as u64);
                    proof {
                        vstd::arithmetic::div_mod::lemma_div_is_ordered(
                            100 * self.bytes_received as int,
                            100 * t as int,
                            t as int,
                        );
                        vstd::arithmetic::div_mod::lemma_div_by_multiple(100, t as int);
                    }
                    self.progress = pct as u8;
                } else {
                    self.progress = 0;
                }
            },
            None => {
                self.bytes_received = grown;
            },
        }
    }

    /// Adds `label` to `provider`'s contribution set, creating the
    /// entry if needed; a label already present is not duplicated, and
    /// no other provider's labels change.
    pub fn record_provider_chunk(&mut self, provider: String, label: String)
        requires
            old(self).wf(),
        ensures
            final(self).wf(),
            cm_labels(final(self).stripe_providers@, provider@) == (if has_label(
                cm_labels(old(self).stripe_providers@, provider@),
                label@,
            ) {
                cm_labels(old(self).stripe_providers@, provider@)
            } else {
                cm_labels(old(self).stripe_providers@, provider@).push(label@)
            }),
            forall|k2: Seq<char>| k2 != provider@ ==> cm_labels(
                final(self).stripe_providers@,
                k2,
            ) == cm_labels(old(self).stripe_providers@, k2),
            final(self).node_name == old(self).node_name,
            final(self).node_addr == old(self).node_addr,
            final(self).has_image == old(self).has_image,
            final(self).current_filename == old(self).current_filename,
            final(self).content_type == old(self).content_type,
            final(self).current_hash == old(self).current_hash,
            final(self).bytes_total == old(self).bytes_total,
            final(self).bytes_received == old(self).bytes_received,
            final(self).progress == old(self).progress,
    {
        let ghost s0 = self.stripe_providers@;
        match kv_find(&self.stripe_providers, &provider) {
            Some(i) => {
                let mut pair = self.stripe_providers.remove(i);
                let ghost ls0 = pair.1@;
                let present = contains_string(&pair.1, &label);
                if !present {
                    pair.1.push(label);
                }
                self.stripe_providers.insert(i, pair);
                proof {
                    assert(self.stripe_providers@ =~= s0.update(
                        i as int,
                        self.stripe_providers@[i as int],
                    ));
                    lemma_kv_get_at(self.stripe_providers@, provider@, i as int);
                    lemma_kv_get_at(s0, provider@, i as int);
                    let m0 = ls0.map_values(|x: String| x@);
                    let m1 = self.stripe_providers@[i as int].1@.map_values(|x: String| x@);
                    assert(has_label(m0, label@) == present);
                    if !present {
                        assert(m1 =~= m0.push(label@));
                    } else {
                        assert(m1 =~= m0);
                    }
                    assert forall|k2: Seq<char>| k2 != provider@ implies cm_labels(
                        self.stripe_providers@,
                        k2,
                    ) == cm_labels(s0, k2) by {
                        crate::strkv::lemma_kv_other_after_update(
                            s0,
                            self.stripe_providers@,
                            k2,
                            i as int,
                        );
                    }
                }
            },
            None => {
                let mut ls: Vec<String> = Vec::new();
                let ghost lbl = label@;
                ls.push(label);
                let ghost pk = provider@;
                self.stripe_providers.push((provider, ls));
                proof {
                    lemma_kv_get_at(self.stripe_providers@, pk, s0.len() as int);
                    lemma_kv_get_absent(s0, pk);
                    let m1 = self.stripe_providers@[s0.len() as int].1@.map_values(
                        |x: String| x@,
                    );
                    assert(m1 =~= Seq::<Seq<char>>::empty().push(lbl));
                    assert(!has_label(cm_labels(s0, pk), lbl));
                    assert forall|k2: Seq<char>| k2 != pk implies cm_labels(
                        self.stripe_providers@,
                        k2,
                    ) == cm_labels(s0, k2) by {
                        crate::strkv::lemma_kv_get_push_other_pub(
                            s0,
                            self.stripe_providers@.last(),
                            k2,
                        );
                    }
                }
            },
        }
    }

    /// Marks the transfer complete: the total becomes the final
    /// received count, progress is forced to 100 and the completion
    /// flag is set.
    pub fn mark_complete(&mut self, filename: String, content_type: String)
        requires
            old(self).wf(),
        ensures
            final(self).wf(),
            final(self).has_image,
            final(self).progress == 100,
            final(self).bytes_total == Some(old(self).bytes_received),
            final(self).bytes_received == old(self).bytes_received,
            final(self).current_filename == Some(filename),
            final(self).content_type == Some(content_type),
            final(self).node_name == old(self).node_name,
            final(self).node_addr == old(self).node_addr,
            final(self).current_hash == old(self).current_hash,
            final(self).stripe_providers == old(self).stripe_providers,
    {
        let recvd = self.bytes_received;
        self.bytes_total = Some(recvd);
        self.has_image = true;
        self.current_filename = Some(filename);
        self.content_type = Some(content_type);
        self.progress = 100;
    }

    /// Records a local ingestion: the node holds the whole blob at
    /// once, so the transfer is born complete with the uploader as the
    /// only contributor.
    pub fn record_ingest(
        &mut self,
        hash: String,
        filename: String,
        content_type: String,
        total: u64,
        provider: String,
        all_label: String,
    )
        ensures
            final(self).wf(),
            final(self).has_image,
            final(self).progress == 100,
            final(self).bytes_total == Some(total),
            final(self).bytes_received == total,
            final(self).current_hash == Some(hash),
            final(self).current_filename == Some(filename),
            final(self).content_type == Some(content_type),
            cm_labels(final(self).stripe_providers@, provider@) =~= seq![all_label@],
            final(self).node_name == old(self).node_name,
            final(self).node_addr == old(self).node_addr,
    {
        self.reset(hash, filename, content_type);
        self.bytes_total = Some(total);
        self.bytes_received = total;
        self.progress = 100;
        self.has_image = true;
        self.record_provider_chunk(provider, all_label);
    }

    /// An atomic copy of the record, for external status reporting.
    pub fn snapshot(&self) -> (r: TransferState)
        ensures
            r.node_name == self.node_name,
            r.node_addr == self.node_addr,
            r.has_image == self.has_image,
            r.current_filename == self.current_filename,
            r.content_type == self.content_type,
            r.current_hash == self.current_hash,
            r.bytes_total == self.bytes_total,
            r.bytes_received == self.bytes_received,
            r.progress == self.progress,
            r.stripe_providers@.len() == self.stripe_providers@.len(),
            forall|j: int|
                0 <= j < r.stripe_providers@.len() ==> #[trigger] r.stripe_providers@[j].0
                    == self.stripe_providers@[j].0 && r.stripe_providers@[j].1@
                    == self.stripe_providers@[j].1@,
    {
        let mut sp: Vec<(String, Vec<String>)> = Vec::new();
        let mut i: usize = 0;
        while i < self.stripe_providers.len()
            invariant
                i <= self.stripe_providers@.len(),
                sp@.len() == i,
                forall|j: int|
                    0 <= j < i ==> #[trigger] sp@[j].0 == self.stripe_providers@[j].0
                        && sp@[j].1@ == self.stripe_providers@[j].1@,
            decreases self.stripe_providers@.len() - i,
        {
            let pair = &self.stripe_providers[i];
            let mut ls: Vec<String> = Vec::new();
            let mut m: usize = 0;
            while m < pair.1.len()
                invariant
                    m <= pair.1@.len(),
                    ls@.len() == m,
                    forall|q: int| 0 <= q < m ==> #[trigger] ls@[q] == pair.1@[q],
                decreases pair.1@.len() - m,
            {
                ls.push(pair.1[m].clone());
                m = m + 1;
            }
            proof {
                assert(ls@ =~= pair.1@);
            }
            sp.push((pair.0.clone(), ls));
            i = i + 1;
        }
        TransferState {
            node_name: self.node_name.clone(),
            node_addr: match &self.node_addr {
                None => None,
                Some(s) => Some(s.clone()),
            },
            has_image: self.has_image,
            current_filename: match &self.current_filename {
                None => None,
                Some(s) => Some(s.clone()),
            },
            content_type: match &self.content_type {
                None => None,
                Some(s) => Some(s.clone()),
            },
            current_hash: match &self.current_hash {
                None => None,
                Some(s) => Some(s.clone()),
            },
            bytes_total: self.bytes_total,
            bytes_received: self.bytes_received,
            progress: self.progress,
            stripe_providers: sp,
        }
    }
}

/// A record freshly reset for the transfer of `hash`, as `reset`
/// leaves it: in progress, with every counter cleared and an empty
/// contribution map.
pub open spec fn fresh_for(
    s: TransferState,
    hash: String,
    filename: String,
    content_type: String,
) -> bool {
    &&& s.wf()
    &&& !s.has_image
    &&& s.current_filename == Some(filename)
    &&& s.content_type == Some(content_type)
    &&& s.current_hash == Some(hash)
    &&& s.bytes_total is None
    &&& s.bytes_received == 0
    &&& s.progress == 0
    &&& s.stripe_providers@.len() == 0
}

/// Repeating a receive request finds no residue: any two records
/// freshly reset for the same transfer agree on every observable
/// field, whatever either held before — in particular a node that
/// already fully holds the hash starts the repeated request from the
/// very same fresh record, so the retry runs exactly as the first
/// request did.
pub proof fn lemma_fresh_no_residue(
    a: TransferState,
    b: TransferState,
    hash: String,
    filename: String,
    content_type: String,
)
    requires
        fresh_for(a, hash, filename, content_type),
        fresh_for(b, hash, filename, content_type),
    ensures
        a.has_image == b.has_image,
        a.current_filename == b.current_filename,
        a.content_type == b.content_type,
        a.current_hash == b.current_hash,
        a.bytes_total == b.bytes_total,
        a.bytes_received == b.bytes_received,
        a.progress == b.progress,
        forall|k: Seq<char>|
            #[trigger] cm_labels(a.stripe_providers@, k) == cm_labels(b.stripe_providers@, k),
{
    assert forall|k: Seq<char>|
        #[trigger] cm_labels(a.stripe_providers@, k) == cm_labels(
        b.stripe_providers@,
        k,
    ) by {
        assert(kv_get(a.stripe_providers@, k) is None);
        assert(kv_get(b.stripe_providers@, k) is None);
    }
}

/// Smaller of two machine words.
pub open spec fn min64(a: u64, b: u64) -> u64 {
    if a < b {
        a
    } else {
        b
    }
}

/// Larger of two machine words.
pub open spec fn max64(a: u64, b: u64) -> u64 {
    if a > b {
        a
    } else {
        b
    }
}

/// Whether some element of `v` spells the same characters as `x`.
pub fn contains_string(v: &Vec<String>, x: &String) -> (b: bool)
    ensures
        b == has_label(v@.map_values(|s: String| s@), x@),
{
    let ghost m = v@.map_values(|s: String| s@);
    let mut i: usize = 0;
    while i < v.len()
        invariant
            i <= v@.len(),
            m == v@.map_values(|s: String| s@),
            forall|j: int| 0 <= j < i ==> m[j] != x@,
        decreases v@.len() - i,
    {
        if v[i] == *x {
            assert(m[i as int] == x@);
            return true;
        }
        i = i + 1;
    }
    false
}

} // verus!
