//! Download orchestrator: the tiered split / sequential / fail state
//! machine at the heart of the node.
//!
//! One invocation downloads one blob.  The orchestrator first attempts
//! a striped fetch across every candidate provider; if that attempt
//! reports a terminal error, all partial progress is cleared and each
//! candidate is tried alone, in order, at most once, stopping at the
//! first success.  The network transport itself runs outside; its
//! event stream is fed into this machine one event at a time, and the
//! machine keeps the shared [`TransferState`] consistent.
use vstd::prelude::*;
use crate::state::{cm_labels, contains_string, has_label, TransferState};
use crate::state::{max64, min64};
use crate::strkv::{kv_find, kv_get, kv_unique, kv_upsert, kv_remove};

verus! {

/// Why a fetch attempt stopped.
#[derive(Clone, Copy, Debug, PartialEq, Eq, Structural)]
pub enum TransferFault {
    /// The provider could not be reached.
    Connectivity,
    /// The transport failed while bytes were in flight.
    Transfer,
}

/// Why a whole invocation failed: either no candidate was even
/// attempted, or every attempt failed and the last fault is carried.
#[derive(Clone, Copy, Debug, PartialEq, Eq, Structural)]
pub enum ExhaustionError {
    NoProviderFound,
    LastFault(TransferFault),
}

/// One event of the striped-fetch stream.  Sub-requests are identified
/// by a key derived from the requested byte ranges; the label naming a
/// completed part is derived from the same request, so it rides on the
/// events themselves.
pub enum SplitEvent {
    /// Cumulative bytes received over all providers.
    Progress { received: u64 },
    /// Sub-request `key` is now assigned to `provider`.
    Assign { key: String, provider: String },
    /// `key`'s current assignment was revoked.
    Unassign { key: String },
    /// Sub-request `key` was fully received; `label` describes it.
    PartComplete { key: String, label: String },
}

/// One event of a single-provider fetch stream.
pub enum FetchEvent {
    /// Cumulative bytes received.
    Progress { received: u64 },
    /// The fetch is currently served by `provider`.
    TryProvider { provider: String },
    /// A provider attempt inside the fetch failed (non-terminal).
    ProviderFailed,
    /// A part of the request was fully received.
    PartComplete,
}

/// Where the invocation stands.
#[derive(Clone, Copy, Debug, PartialEq, Eq, Structural)]
pub enum Phase {
    /// Candidates gathered, no fetch issued yet.
    Init,
    /// The striped fetch is in flight.
    SplitRunning,
    /// Sequential fallback: `next` is the index of the candidate to
    /// try next; `next == candidates.len()` means exhaustion.
    Sequential { next: usize },
    /// The blob was fully received and the transfer marked complete.
    Complete,
}

/// Appends `x` unless an equal element is already present.
pub open spec fn dedup_push(s: Seq<Seq<char>>, x: Seq<char>) -> Seq<Seq<char>> {
    if has_label(s, x) {
        s
    } else {
        s.push(x)
    }
}

/// First occurrences of `vals`, in order.
pub open spec fn dedup_views(vals: Seq<Seq<char>>) -> Seq<Seq<char>>
    decreases vals.len(),
{
    if vals.len() == 0 {
        Seq::empty()
    } else {
        dedup_push(dedup_views(vals.drop_last()), vals.last())
    }
}

/// No two elements spell the same characters.
pub open spec fn all_distinct(s: Seq<Seq<char>>) -> bool {
    forall|i: int, j: int| 0 <= i < j < s.len() ==> s[i] != s[j]
}

proof fn lemma_dedup_push_distinct(s: Seq<Seq<char>>, x: Seq<char>)
    requires
        all_distinct(s),
    ensures
        all_distinct(dedup_push(s, x)),
{
    if !has_label(s, x) {
        let t = s.push(x);
        assert forall|i: int, j: int| 0 <= i < j < t.len() implies t[i] != t[j] by {
            if j < s.len() {
                assert(t[i] == s[i] && t[j] == s[j]);
            } else {
                assert(t[j] == x && t[i] == s[i]);
            }
        }
    }
}

proof fn lemma_dedup_views_distinct(vals: Seq<Seq<char>>)
    ensures
        all_distinct(dedup_views(vals)),
    decreases vals.len(),
{
    if vals.len() == 0 {
    } else {
        lemma_dedup_views_distinct(vals.drop_last());
        lemma_dedup_push_distinct(dedup_views(vals.drop_last()), vals.last());
    }
}

/// The candidate set is deduplicated by node identity: no provider
/// appears twice, so the sequential tier — which walks the candidates
/// by index — contacts each provider at most once.
pub proof fn lemma_candidates_distinct(dir: Seq<(String, String)>, fallback: Option<Seq<char>>)
    ensures
        all_distinct(candidate_views(dir, fallback)),
{
    let base = dedup_views(dir.map_values(|p: (String, String)| p.1@));
    lemma_dedup_views_distinct(dir.map_values(|p: (String, String)| p.1@));
    match fallback {
        None => {},
        Some(f) => {
            lemma_dedup_push_distinct(base, f);
        },
    }
}

/// The candidate set of an invocation: the directory's resolved
/// addresses in their stored order, then the fallback address carried
/// by the triggering message, all deduplicated by node identity.
pub open spec fn candidate_views(
    dir: Seq<(String, String)>,
    fallback: Option<Seq<char>>,
) -> Seq<Seq<char>> {
    let base = dedup_views(dir.map_values(|p: (String, String)| p.1@));
    match fallback {
        None => base,
        Some(f) => dedup_push(base, f),
    }
}

/// Lookup in an owner list, as character sequences.
pub open spec fn kv_opt_view(s: Seq<(String, String)>, k: Seq<char>) -> Option<Seq<char>> {
    match kv_get(s, k) {
        None => None,
        Some(v) => Some(v@),
    }
}

/// State machine of one download invocation.
///
/// `exported` records that the export-to-local-serving-location call
/// was made for this invocation's hash; the completion flag of the
/// governed [`TransferState`] can only be raised afterwards (see
/// [`Orchestrator::governs`]).
pub struct Orchestrator {
    pub hash: String,
    pub filename: String,
    pub content_type: String,
    /// Candidate provider node identities, deduplicated, in directory
    /// order with the fallback hint last.
    pub candidates: Vec<String>,
    pub phase: Phase,
    /// Split tier: sub-request key to the provider currently assigned.
    pub owners: Vec<(String, String)>,
    /// Sequential tier: provider reported by the running fetch.
    pub last_provider: Option<String>,
    /// Fault of the most recent failed attempt, either tier.
    pub last_fault: Option<TransferFault>,
    /// An export call for `hash` was made during this invocation.
    pub exported: bool,
}

impl Orchestrator {
    /// Structural invariant of the machine.
    pub open spec fn inv(self) -> bool {
        &&& kv_unique(self.owners@)
        &&& (self.phase matches Phase::Sequential { next } ==> next <= self.candidates@.len())
    }

    /// Completion invariant tying the machine to the transfer record
    /// it drives: the record tracks this invocation's hash, and its
    /// completion flag can be true only after the export call for that
    /// hash was made.
    pub open spec fn governs(self, s: TransferState) -> bool {
        &&& s.current_hash matches Some(h) && h@ == self.hash@
        &&& (s.has_image ==> self.exported && self.phase is Complete)
    }

    /// The sequential tier has no candidate left to try.
    pub open spec fn is_exhausted(self) -> bool {
        self.phase matches Phase::Sequential { next } && next == self.candidates@.len()
    }

    /// Starts an invocation: resets the transfer record to a fresh
    /// in-progress entry for `hash` and gathers the candidate set from
    /// the directory snapshot plus the optional fallback identity.
    pub fn begin(
        state: &mut TransferState,
        hash: String,
        filename: String,
        content_type: String,
        directory: &Vec<(String, String)>,
        fallback: Option<String>,
    ) -> (o: Orchestrator)
        requires
            old(state).wf(),
        ensures
            o.inv(),
            o.governs(*final(state)),
            final(state).wf(),
            !final(state).has_image,
            final(state).bytes_received == 0,
            final(state).bytes_total is None,
            final(state).progress == 0,
            final(state).current_hash == Some(o.hash),
            final(state).current_filename == Some(o.filename),
            final(state).content_type == Some(o.content_type),
            final(state).stripe_providers@ =~= Seq::<(String, Vec<String>)>::empty(),
            final(state).node_name == old(state).node_name,
            final(state).node_addr == old(state).node_addr,
            o.hash == hash,
            o.filename == filename,
            o.content_type == content_type,
            o.candidates@.map_values(|s: String| s@) == candidate_views(
                directory@,
                match fallback {
                    None => None,
                    Some(f) => Some(f@),
                },
            ),
            o.phase is Init,
            o.owners@ =~= Seq::<(String, String)>::empty(),
            o.last_provider is None,
            o.last_fault is None,
            !o.exported,
    {
        state.reset(hash.clone(), filename.clone(), content_type.clone());
        let ghost dirs = directory@;
        let ghost vals = dirs.map_values(|p: (String, String)| p.1@);
        let mut cands: Vec<String> = Vec::new();
        let mut i: usize = 0;
        proof {
            assert(vals.take(0) =~= Seq::<Seq<char>>::empty());
        }
        while i < directory.len()
            invariant
                i <= dirs.len(),
                dirs == directory@,
                vals == dirs.map_values(|p: (String, String)| p.1@),
                cands@.map_values(|s: String| s@) == dedup_views(vals.take(i as int)),
            decreases dirs.len() - i,
        {
            let id = directory[i].1.clone();
            let ghost before = cands@.map_values(|s: String| s@);
            let present = contains_string(&cands, &id);
            if !present {
                cands.push(id);
            }
            proof {
                assert(vals.take(i + 1).drop_last() =~= vals.take(i as int));
                assert(vals.take(i + 1).last() == id@);
                if !present {
                    assert(cands@.map_values(|s: String| s@) =~= before.push(id@));
                }
                assert(cands@.map_values(|s: String| s@) == dedup_push(before, id@));
            }
            i = i + 1;
        }
        proof {
            assert(vals.take(dirs.len() as int) =~= vals);
        }
        match fallback {
            None => {},
            Some(f) => {
                let ghost before = cands@.map_values(|s: String| s@);
                let present = contains_string(&cands, &f);
                if !present {
                    cands.push(f);
                }
                proof {
                    if !present {
                        assert(cands@.map_values(|s: String| s@) =~= before.push(f@));
                    }
                }
            },
        }
        Orchestrator {
            hash,
            filename,
            content_type,
            candidates: cands,
            phase: Phase::Init,
            owners: Vec::new(),
            last_provider: None,
            last_fault: None,
            exported: false,
        }
    }

    /// Decides the first tier.  With at least one candidate the split
    /// fetch goes out (the caller issues it exactly when `go` is
    /// true); with none, the invocation is exhausted on the spot and
    /// no fetch of any kind is issued.
    pub fn start_split(&mut self) -> (go: bool)
        requires
            old(self).inv(),
            old(self).phase is Init,
        ensures
            final(self).inv(),
            go == (old(self).candidates@.len() > 0),
            go ==> final(self).phase is SplitRunning,
            !go ==> final(self).phase == (Phase::Sequential { next: 0usize })
                && final(self).is_exhausted(),
            *final(self) == (Orchestrator { phase: final(self).phase, ..*old(self) }),
    {
        if self.candidates.len() > 0 {
            self.phase = Phase::SplitRunning;
            true
        } else {
            self.phase = Phase::Sequential { next: 0 };
            false
        }
    }

    /// Applies one striped-fetch event: progress reports update the
    /// byte counters, assignment events maintain the transient
    /// sub-request owner map, and a completion is attributed to
    /// whichever provider holds the sub-request at that moment.
    pub fn on_split_event(&mut self, state: &mut TransferState, ev: SplitEvent)
        requires
            old(self).inv(),
            old(self).phase is SplitRunning,
            old(self).governs(*old(state)),
            old(state).wf(),
            !old(state).has_image,
        ensures
            final(self).inv(),
            final(self).governs(*final(state)),
            final(state).wf(),
            !final(state).has_image,
            final(self).phase == old(self).phase,
            final(self).hash == old(self).hash,
            final(self).filename == old(self).filename,
            final(self).content_type == old(self).content_type,
            final(self).candidates == old(self).candidates,
            final(self).last_provider == old(self).last_provider,
            final(self).last_fault == old(self).last_fault,
            final(self).exported == old(self).exported,
            final(state).node_name == old(state).node_name,
            final(state).node_addr == old(state).node_addr,
            final(state).current_filename == old(state).current_filename,
            final(state).content_type == old(state).content_type,
            final(state).current_hash == old(state).current_hash,
            final(state).bytes_total == old(state).bytes_total,
            (ev matches SplitEvent::Progress { received } ==> {
                &&& final(state).bytes_received == (match old(state).bytes_total {
                    Some(t) => min64(max64(old(state).bytes_received, received), t),
                    None => max64(old(state).bytes_received, received),
                })
                &&& final(state).stripe_providers == old(state).stripe_providers
                &&& final(self).owners == old(self).owners
            }),
            (ev matches SplitEvent::Assign { key, provider } ==> {
                &&& kv_opt_view(final(self).owners@, key@) == Some(provider@)
                &&& (forall|k2: Seq<char>|
                    k2 != key@ ==> kv_opt_view(final(self).owners@, k2) == kv_opt_view(
                        old(self).owners@,
                        k2,
                    ))
                &&& *final(state) == *old(state)
            }),
            (ev matches SplitEvent::Unassign { key } ==> {
                &&& kv_opt_view(final(self).owners@, key@) is None
                &&& (forall|k2: Seq<char>|
                    k2 != key@ ==> kv_opt_view(final(self).owners@, k2) == kv_opt_view(
                        old(self).owners@,
                        k2,
                    ))
                &&& *final(state) == *old(state)
            }),
            (ev matches SplitEvent::PartComplete { key, label } ==> {
                &&& final(self).owners == old(self).owners
                &&& final(state).bytes_received == old(state).bytes_received
                &&& final(state).progress == old(state).progress
                &&& (match kv_opt_view(old(self).owners@, key@) {
                    Some(p) => {
                        &&& cm_labels(final(state).stripe_providers@, p) == (if has_label(
                            cm_labels(old(state).stripe_providers@, p),
                            label@,
                        ) {
                            cm_labels(old(state).stripe_providers@, p)
                        } else {
                            cm_labels(old(state).stripe_providers@, p).push(label@)
                        })
                        &&& (forall|k2: Seq<char>|
                            k2 != p ==> cm_labels(final(state).stripe_providers@, k2)
                                == cm_labels(old(state).stripe_providers@, k2))
                    },
                    None => final(state).stripe_providers == old(state).stripe_providers,
                })
            }),
    {
        match ev {
            SplitEvent::Progress { received } => {
                state.record_progress(received, None);
            },
            SplitEvent::Assign { key, provider } => {
                kv_upsert(&mut self.owners, key, provider);
            },
            SplitEvent::Unassign { key } => {
                kv_remove(&mut self.owners, &key);
            },
            SplitEvent::PartComplete { key, label } => {
                match kv_find(&self.owners, &key) {
                    Some(i) => {
                        let provider = self.owners[i].1.clone();
                        state.record_provider_chunk(provider, label);
                    },
                    None => {},
                }
            },
        }
    }

    /// Drains a whole split-fetch event stream, in stream order, into
    /// a freshly reset record.  Afterwards the record is exactly what
    /// the event folds say: every completed sub-request's label stands
    /// in the set of the provider that owned it at completion time
    /// (and, by [`lemma_split_attribution_only`], nothing else does),
    /// and the byte counter is the largest progress report.
    pub fn apply_split_events(&mut self, state: &mut TransferState, events: Vec<SplitEvent>)
        requires
            old(self).inv(),
            old(self).phase is SplitRunning,
            old(self).owners@.len() == 0,
            old(self).governs(*old(state)),
            old(state).wf(),
            !old(state).has_image,
            old(state).bytes_total is None,
            old(state).bytes_received == 0,
            old(state).stripe_providers@.len() == 0,
        ensures
            final(self).inv(),
            final(self).governs(*final(state)),
            final(state).wf(),
            !final(state).has_image,
            final(self).phase == old(self).phase,
            final(self).hash == old(self).hash,
            final(self).filename == old(self).filename,
            final(self).content_type == old(self).content_type,
            final(self).candidates == old(self).candidates,
            final(self).exported == old(self).exported,
            final(state).current_hash == old(state).current_hash,
            final(state).current_filename == old(state).current_filename,
            final(state).content_type == old(state).content_type,
            final(state).node_name == old(state).node_name,
            final(state).node_addr == old(state).node_addr,
            final(state).bytes_total is None,
            final(state).bytes_received == received_after(events@, events@.len() as int),
            forall|k: Seq<char>|
                #[trigger] kv_opt_view(final(self).owners@, k) == owner_after(
                    events@,
                    events@.len() as int,
                    k,
                ),
            forall|p: Seq<char>|
                #[trigger] cm_labels(final(state).stripe_providers@, p) == contribs_after(
                    events@,
                    events@.len() as int,
                    p,
                ),
    {
        let ghost evs = events@;
        let total: usize = events.len();
        let mut rest = events;
        let mut i: usize = 0;
        proof {
            assert(rest@ =~= evs.skip(0));
            assert forall|k: Seq<char>|
                #[trigger] kv_opt_view(self.owners@, k) == owner_after(evs, 0, k) by {
                crate::strkv::lemma_kv_get_absent(self.owners@, k);
            }
            assert forall|p: Seq<char>|
                #[trigger] cm_labels(state.stripe_providers@, p) == contribs_after(
                    evs,
                    0,
                    p,
                ) by {
                crate::strkv::lemma_kv_get_absent(state.stripe_providers@, p);
            }
        }
        while rest.len() > 0
            invariant
                total == evs.len(),
                i + rest@.len() == evs.len(),
                rest@ =~= evs.skip(i as int),
                self.inv(),
                self.governs(*state),
                state.wf(),
                !state.has_image,
                self.phase is SplitRunning,
                self.hash == old(self).hash,
                self.filename == old(self).filename,
                self.content_type == old(self).content_type,
                self.candidates == old(self).candidates,
                self.exported == old(self).exported,
                state.current_hash == old(state).current_hash,
                state.current_filename == old(state).current_filename,
                state.content_type == old(state).content_type,
                state.node_name == old(state).node_name,
                state.node_addr == old(state).node_addr,
                state.bytes_total is None,
                state.bytes_received == received_after(evs, i as int),
                forall|k: Seq<char>|
                    #[trigger] kv_opt_view(self.owners@, k) == owner_after(evs, i as int, k),
                forall|p: Seq<char>|
                    #[trigger] cm_labels(state.stripe_providers@, p) == contribs_after(
                        evs,
                        i as int,
                        p,
                    ),
            decreases rest@.len(),
        {
            let ghost owners0 = self.owners@;
            let ghost providers0 = state.stripe_providers@;
            let ev = rest.remove(0);
            proof {
                assert(ev == evs[i as int]);
                assert(rest@ =~= evs.skip(i as int + 1));
            }
            self.on_split_event(state, ev);
            proof {
                let n = i as int + 1;
                assert forall|k: Seq<char>|
                    #[trigger] kv_opt_view(self.owners@, k) == owner_after(evs, n, k) by {
                    match evs[n - 1] {
                        SplitEvent::Assign { key, provider } => {
                            if key@ != k {
                                assert(kv_opt_view(self.owners@, k) == kv_opt_view(owners0, k));
                            }
                        },
                        SplitEvent::Unassign { key } => {
                            if key@ != k {
                                assert(kv_opt_view(self.owners@, k) == kv_opt_view(owners0, k));
                            }
                        },
                        _ => {},
                    }
                }
                assert forall|p: Seq<char>|
                    #[trigger] cm_labels(state.stripe_providers@, p) == contribs_after(
                        evs,
                        n,
                        p,
                    ) by {
                    match evs[n - 1] {
                        SplitEvent::PartComplete { key, label } => {
                            assert(kv_opt_view(owners0, key@) == owner_after(evs, i as int, key@));
                            match owner_after(evs, i as int, key@) {
                                Some(q) => {
                                    if q != p {
                                        assert(cm_labels(state.stripe_providers@, p) == cm_labels(
                                            providers0,
                                            p,
                                        ));
                                    }
                                },
                                None => {},
                            }
                        },
                        _ => {},
                    }
                }
            }
            i = i + 1;
        }
        proof {
            assert(i as int == evs.len());
        }
    }

    /// Aborts the split tier after a terminal transport error: every
    /// partial-progress field of the transfer record is cleared before
    /// the sequential tier starts, so nothing of the aborted attempt
    /// stays visible, and the fault is kept as the latest error.
    pub fn abort_split(&mut self, state: &mut TransferState, fault: TransferFault)
        requires
            old(self).inv(),
            old(self).phase is SplitRunning,
            old(self).governs(*old(state)),
            old(state).wf(),
            !old(state).has_image,
        ensures
            final(self).inv(),
            final(self).governs(*final(state)),
            final(state).wf(),
            !final(state).has_image,
            final(state).bytes_received == 0,
            final(state).bytes_total is None,
            final(state).progress == 0,
            final(state).stripe_providers@ =~= Seq::<(String, Vec<String>)>::empty(),
            final(state).current_hash == old(state).current_hash,
            final(state).current_filename == old(state).current_filename,
            final(state).content_type == old(state).content_type,
            final(state).node_name == old(state).node_name,
            final(state).node_addr == old(state).node_addr,
            final(self).phase == (Phase::Sequential { next: 0usize }),
            final(self).last_fault == Some(fault),
            final(self).owners@ =~= Seq::<(String, String)>::empty(),
            final(self).last_provider is None,
            final(self).hash == old(self).hash,
            final(self).filename == old(self).filename,
            final(self).content_type == old(self).content_type,
            final(self).candidates == old(self).candidates,
            final(self).exported == old(self).exported,
    {
        state.clear_partial();
        self.owners = Vec::new();
        self.last_provider = None;
        self.last_fault = Some(fault);
        self.phase = Phase::Sequential { next: 0 };
    }

    /// The candidate the sequential tier should fetch from now, or
    /// `None` once every candidate has been tried.
    pub fn current_candidate(&self) -> (r: Option<String>)
        requires
            self.inv(),
            self.phase matches Phase::Sequential { .. },
        ensures
            match r {
                Some(c) => self.phase matches Phase::Sequential { next } && next
                    < self.candidates@.len() && c == self.candidates@[next as int],
                None => self.is_exhausted(),
            },
    {
        match self.phase {
            Phase::Sequential { next } => {
                if next < self.candidates.len() {
                    Some(self.candidates[next].clone())
                } else {
                    None
                }
            },
            _ => None,
        }
    }

    /// Applies one event of the current sequential fetch: progress
    /// reports update the byte counters, and the stream's provider
    /// report is remembered for attribution at completion time.
    pub fn on_fetch_event(&mut self, state: &mut TransferState, ev: FetchEvent)
        requires
            old(self).inv(),
            old(self).phase matches Phase::Sequential { next } && next < old(
                self,
            ).candidates@.len(),
            old(self).governs(*old(state)),
            old(state).wf(),
            !old(state).has_image,
        ensures
            final(self).inv(),
            final(self).governs(*final(state)),
            final(state).wf(),
            !final(state).has_image,
            final(self).phase == old(self).phase,
            final(self).hash == old(self).hash,
            final(self).filename == old(self).filename,
            final(self).content_type == old(self).content_type,
            final(self).candidates == old(self).candidates,
            final(self).owners == old(self).owners,
            final(self).last_fault == old(self).last_fault,
            final(self).exported == old(self).exported,
            final(state).stripe_providers == old(state).stripe_providers,
            final(state).current_hash == old(state).current_hash,
            final(state).current_filename == old(state).current_filename,
            final(state).content_type == old(state).content_type,
            final(state).node_name == old(state).node_name,
            final(state).node_addr == old(state).node_addr,
            final(state).bytes_total == old(state).bytes_total,
            (ev matches FetchEvent::Progress { received } ==> {
                &&& final(state).bytes_received == (match old(state).bytes_total {
                    Some(t) => min64(max64(old(state).bytes_received, received), t),
                    None => max64(old(state).bytes_received, received),
                })
                &&& final(self).last_provider == old(self).last_provider
            }),
            (ev matches FetchEvent::TryProvider { provider } ==> {
                &&& final(self).last_provider == Some(provider)
                &&& *final(state) == *old(state)
            }),
            (ev matches FetchEvent::ProviderFailed ==> *final(self) == *old(self)
                && *final(state) == *old(state)),
            (ev matches FetchEvent::PartComplete ==> *final(self) == *old(self)
                && *final(state) == *old(state)),
    {
        match ev {
            FetchEvent::Progress { received } => {
                state.record_progress(received, None);
            },
            FetchEvent::TryProvider { provider } => {
                self.last_provider = Some(provider);
            },
            FetchEvent::ProviderFailed => {},
            FetchEvent::PartComplete => {},
        }
    }

    /// Records that the current candidate's fetch ended in a terminal
    /// error: the fault is kept, the per-fetch provider report is
    /// dropped, and the machine moves to the next candidate — each
    /// candidate is visited at most once.
    pub fn candidate_failed(&mut self, fault: TransferFault)
        requires
            old(self).inv(),
            old(self).phase matches Phase::Sequential { next } && next < old(
                self,
            ).candidates@.len(),
        ensures
            final(self).inv(),
            *final(self) == spec_fail(*old(self), fault),
            old(self).phase matches Phase::Sequential { next } ==> final(self).phase == (
            Phase::Sequential { next: (next + 1) as usize }),
            final(self).last_fault == Some(fault),
            final(self).last_provider is None,
            final(self).hash == old(self).hash,
            final(self).filename == old(self).filename,
            final(self).content_type == old(self).content_type,
            final(self).candidates == old(self).candidates,
            final(self).owners == old(self).owners,
            final(self).exported == old(self).exported,
    {
        match self.phase {
            Phase::Sequential { next } => {
                if next < self.candidates.len() {
                    self.phase = Phase::Sequential { next: next + 1 };
                }
            },
            _ => {},
        }
        self.last_provider = None;
        self.last_fault = Some(fault);
    }

    /// Records that the export of this invocation's blob to the local
    /// serving location was attempted.  Completion can only be marked
    /// afterwards.
    pub fn note_export(&mut self)
        ensures
            *final(self) == (Orchestrator { exported: true, ..*old(self) }),
    {
        self.exported = true;
    }

    /// Finishes a fully successful split attempt: the transfer is
    /// marked complete and the node itself is recorded as holding the
    /// whole blob, under the universal-coverage label.
    pub fn finish_split(&mut self, state: &mut TransferState, self_id: String)
        requires
            old(self).inv(),
            old(self).phase is SplitRunning,
            old(self).exported,
            old(self).governs(*old(state)),
            old(state).wf(),
            !old(state).has_image,
        ensures
            final(self).inv(),
            final(self).governs(*final(state)),
            final(state).wf(),
            final(state).has_image,
            final(state).progress == 100,
            final(state).bytes_total == Some(old(state).bytes_received),
            final(state).bytes_received == old(state).bytes_received,
            final(state).current_filename == Some(old(self).filename),
            final(state).content_type == Some(old(self).content_type),
            final(state).current_hash == old(state).current_hash,
            final(state).node_name == old(state).node_name,
            final(state).node_addr == old(state).node_addr,
            cm_labels(final(state).stripe_providers@, self_id@) == (if has_label(
                cm_labels(old(state).stripe_providers@, self_id@),
                all_label(),
            ) {
                cm_labels(old(state).stripe_providers@, self_id@)
            } else {
                cm_labels(old(state).stripe_providers@, self_id@).push(all_label())
            }),
            forall|k2: Seq<char>| k2 != self_id@ ==> cm_labels(
                final(state).stripe_providers@,
                k2,
            ) == cm_labels(old(state).stripe_providers@, k2),
            final(self).phase is Complete,
            final(self).hash == old(self).hash,
            final(self).candidates == old(self).candidates,
            final(self).last_fault == old(self).last_fault,
    {
        let filename = self.filename.clone();
        let content_type = self.content_type.clone();
        state.mark_complete(filename, content_type);
        state.record_provider_chunk(self_id, universal_label());
        self.phase = Phase::Complete;
    }

    /// Finishes a successful sequential fetch: the transfer is marked
    /// complete, the serving provider (when the stream reported one)
    /// and the node itself are both credited with the whole blob.
    pub fn finish_sequential(&mut self, state: &mut TransferState, self_id: String)
        requires
            old(self).inv(),
            old(self).phase matches Phase::Sequential { next } && next < old(
                self,
            ).candidates@.len(),
            old(self).exported,
            old(self).governs(*old(state)),
            old(state).wf(),
            !old(state).has_image,
        ensures
            final(self).inv(),
            final(self).governs(*final(state)),
            final(state).wf(),
            final(state).has_image,
            final(state).progress == 100,
            final(state).bytes_total == Some(old(state).bytes_received),
            final(state).bytes_received == old(state).bytes_received,
            final(state).current_filename == Some(old(self).filename),
            final(state).content_type == Some(old(self).content_type),
            final(state).current_hash == old(state).current_hash,
            final(state).node_name == old(state).node_name,
            final(state).node_addr == old(state).node_addr,
            final(self).phase is Complete,
            final(self).hash == old(self).hash,
            final(self).candidates == old(self).candidates,
            (match old(self).last_provider {
                None => {
                    &&& cm_labels(final(state).stripe_providers@, self_id@) == add_all(
                        cm_labels(old(state).stripe_providers@, self_id@),
                    )
                    &&& (forall|k2: Seq<char>|
                        k2 != self_id@ ==> cm_labels(final(state).stripe_providers@, k2)
                            == cm_labels(old(state).stripe_providers@, k2))
                },
                Some(p) => {
                    &&& (p@ != self_id@ ==> cm_labels(final(state).stripe_providers@, p@)
                        == add_all(cm_labels(old(state).stripe_providers@, p@)) && cm_labels(
                        final(state).stripe_providers@,
                        self_id@,
                    ) == add_all(cm_labels(old(state).stripe_providers@, self_id@)))
                    &&& (p@ == self_id@ ==> cm_labels(final(state).stripe_providers@, self_id@)
                        == add_all(add_all(cm_labels(old(state).stripe_providers@, self_id@))))
                    &&& (forall|k2: Seq<char>|
                        k2 != self_id@ && k2 != p@ ==> cm_labels(
                            final(state).stripe_providers@,
                            k2,
                        ) == cm_labels(old(state).stripe_providers@, k2))
                },
            }),
    {
        let filename = self.filename.clone();
        let content_type = self.content_type.clone();
        state.mark_complete(filename, content_type);
        let lp = self.last_provider.take();
        match lp {
            Some(p) => {
                state.record_provider_chunk(p, universal_label());
            },
            None => {},
        }
        state.record_provider_chunk(self_id, universal_label());
        self.phase = Phase::Complete;
    }

    /// The error an exhausted invocation surfaces: the fault of the
    /// last attempt, or "no provider found" when no candidate was even
    /// attempted.
    pub fn failure(&self) -> (e: ExhaustionError)
        requires
            self.is_exhausted(),
        ensures
            e == (match self.last_fault {
                None => ExhaustionError::NoProviderFound,
                Some(f) => ExhaustionError::LastFault(f),
            }),
            self.candidates@.len() == 0 && self.last_fault is None
                ==> e == ExhaustionError::NoProviderFound,
    {
        match self.last_fault {
            None => ExhaustionError::NoProviderFound,
            Some(f) => ExhaustionError::LastFault(f),
        }
    }

    /// This invocation's content hash, for the export step.
    pub fn hash_string(&self) -> (r: String)
        ensures
            r == self.hash,
    {
        self.hash.clone()
    }
}

/// The universal-coverage label: a provider recorded under it can
/// serve the whole blob.
pub open spec fn all_label() -> Seq<char> {
    "all"@
}

/// Adding the universal-coverage label to a label set, idempotently.
pub open spec fn add_all(ls: Seq<Seq<char>>) -> Seq<Seq<char>> {
    if has_label(ls, all_label()) {
        ls
    } else {
        ls.push(all_label())
    }
}

/// The universal-coverage label as a value.
pub fn universal_label() -> (r: String)
    ensures
        r@ == all_label(),
{
    "all".to_owned()
}

/// The machine after one failed sequential attempt.
pub open spec fn spec_fail(o: Orchestrator, f: TransferFault) -> Orchestrator {
    Orchestrator {
        phase: match o.phase {
            Phase::Sequential { next } => Phase::Sequential { next: (next + 1) as usize },
            ph => ph,
        },
        last_provider: None,
        last_fault: Some(f),
        ..o
    }
}

/// The machine after a run of failed sequential attempts.
pub open spec fn fail_n(o: Orchestrator, faults: Seq<TransferFault>) -> Orchestrator
    decreases faults.len(),
{
    if faults.len() == 0 {
        o
    } else {
        spec_fail(fail_n(o, faults.drop_last()), faults.last())
    }
}

/// Sequential fallback tries each candidate at most once, in the given
/// order: starting at the first candidate, after `k` failed attempts
/// the machine stands at candidate `k`, so with `N` candidates and
/// every attempt failing, exactly `N` attempts occur — one per
/// candidate, in order — and the machine is exhausted afterwards.
pub proof fn lemma_sequential_exhaustion(o: Orchestrator, faults: Seq<TransferFault>)
    requires
        o.phase == (Phase::Sequential { next: 0usize }),
        faults.len() == o.candidates@.len(),
        faults.len() <= usize::MAX,
    ensures
        fail_n(o, faults).is_exhausted(),
        fail_n(o, faults).candidates == o.candidates,
        forall|k: int|
            0 <= k <= faults.len() ==> #[trigger] fail_n(o, faults.take(k)).phase == (
            Phase::Sequential { next: k as usize }),
{
    assert forall|k: int| 0 <= k <= faults.len() implies #[trigger] fail_n(
        o,
        faults.take(k),
    ).phase == (Phase::Sequential { next: k as usize }) && fail_n(o, faults.take(k)).candidates
        == o.candidates by {
        lemma_fail_n_steps(o, faults, k);
    }
    assert(faults.take(faults.len() as int) =~= faults);
}

proof fn lemma_fail_n_steps(o: Orchestrator, faults: Seq<TransferFault>, k: int)
    requires
        o.phase == (Phase::Sequential { next: 0usize }),
        0 <= k <= faults.len(),
        faults.len() <= usize::MAX,
    ensures
        fail_n(o, faults.take(k)).phase == (Phase::Sequential { next: k as usize }),
        fail_n(o, faults.take(k)).candidates == o.candidates,
    decreases k,
{
    if k == 0 {
        assert(faults.take(0) =~= Seq::<TransferFault>::empty());
    } else {
        lemma_fail_n_steps(o, faults, k - 1);
        assert(faults.take(k).drop_last() =~= faults.take(k - 1));
    }
}

/// Cumulative bytes received after the first `n` events of a split
/// stream that started from a freshly reset record: the largest
/// progress report seen so far.
pub open spec fn received_after(evs: Seq<SplitEvent>, n: int) -> u64
    decreases n,
{
    if n <= 0 {
        0
    } else {
        match evs[n - 1] {
            SplitEvent::Progress { received } => max64(received_after(evs, n - 1), received),
            _ => received_after(evs, n - 1),
        }
    }
}

/// Owner of sub-request `k` after the first `n` events of a split
/// stream: the provider of the latest assignment not yet revoked.
pub open spec fn owner_after(evs: Seq<SplitEvent>, n: int, k: Seq<char>) -> Option<Seq<char>>
    decreases n,
{
    if n <= 0 {
        None
    } else {
        match evs[n - 1] {
            SplitEvent::Assign { key, provider } => if key@ == k {
                Some(provider@)
            } else {
                owner_after(evs, n - 1, k)
            },
            SplitEvent::Unassign { key } => if key@ == k {
                None
            } else {
                owner_after(evs, n - 1, k)
            },
            _ => owner_after(evs, n - 1, k),
        }
    }
}

/// Labels attributed to provider `p` after the first `n` events of a
/// split stream that started from a freshly reset record: a completion
/// credits the sub-request's label to whoever owns it at that moment.
pub open spec fn contribs_after(evs: Seq<SplitEvent>, n: int, p: Seq<char>) -> Seq<Seq<char>>
    decreases n,
{
    if n <= 0 {
        Seq::empty()
    } else {
        let prev = contribs_after(evs, n - 1, p);
        match evs[n - 1] {
            SplitEvent::PartComplete { key, label } => match owner_after(evs, n - 1, key@) {
                Some(q) => if q == p {
                    if has_label(prev, label@) {
                        prev
                    } else {
                        prev.push(label@)
                    }
                } else {
                    prev
                },
                None => prev,
            },
            _ => prev,
        }
    }
}

proof fn lemma_has_label_push(ls: Seq<Seq<char>>, l: Seq<char>, x: Seq<char>)
    requires
        has_label(ls, l),
    ensures
        has_label(ls.push(x), l),
{
    let i = choose|i: int| 0 <= i < ls.len() && ls[i] == l;
    assert(ls.push(x)[i] == ls[i]);
}

/// In a split attempt, a completed sub-request is attributed to
/// whichever provider held its assignment at the moment of completion:
/// once event `i` completes a part whose owner is then `p`, every
/// later point of the stream shows that part's label in `p`'s
/// contribution set.  Together with
/// [`lemma_split_attribution_only`] this says a fully successful
/// split attempt records each completion exactly once, under the
/// owner-at-completion-time provider.
pub proof fn lemma_split_attribution(
    evs: Seq<SplitEvent>,
    n: int,
    i: int,
    k: Seq<char>,
    l: Seq<char>,
    p: Seq<char>,
)
    requires
        0 <= i < n <= evs.len(),
        evs[i] matches SplitEvent::PartComplete { key, label } && key@ == k && label@ == l,
        owner_after(evs, i, k) == Some(p),
    ensures
        has_label(contribs_after(evs, n, p), l),
    decreases n,
{
    if n == i + 1 {
        let prev = contribs_after(evs, i, p);
        if !has_label(prev, l) {
            assert(contribs_after(evs, n, p) == prev.push(l));
            assert(contribs_after(evs, n, p)[prev.len() as int] == l);
        }
    } else {
        lemma_split_attribution(evs, n - 1, i, k, l, p);
        let prev = contribs_after(evs, n - 1, p);
        match evs[n - 1] {
            SplitEvent::PartComplete { key, label } => {
                match owner_after(evs, n - 1, key@) {
                    Some(q) => {
                        if q == p && !has_label(prev, label@) {
                            lemma_has_label_push(prev, l, label@);
                        }
                    },
                    None => {},
                }
            },
            _ => {},
        }
    }
}

/// A label stands in a provider's contribution set only through a
/// completion event: whenever `p`'s set shows `l` after `n` events,
/// some earlier event completed a sub-request labelled `l` whose owner
/// at that moment was `p`.
pub proof fn lemma_split_attribution_only(evs: Seq<SplitEvent>, n: int, p: Seq<char>, l: Seq<char>)
    requires
        0 <= n <= evs.len(),
        has_label(contribs_after(evs, n, p), l),
    ensures
        exists|i: int|
            0 <= i < n && (#[trigger] evs[i] matches SplitEvent::PartComplete { key, label }
                && label@ == l && owner_after(evs, i, key@) == Some(p)),
    decreases n,
{
    let prev = contribs_after(evs, n - 1, p);
    if has_label(prev, l) {
        lemma_split_attribution_only(evs, n - 1, p, l);
        let i = choose|i: int|
            0 <= i < n - 1 && (#[trigger] evs[i] matches SplitEvent::PartComplete { key, label }
                && label@ == l && owner_after(evs, i, key@) == Some(p));
        assert(0 <= i < n && (evs[i] matches SplitEvent::PartComplete { key, label } && label@ == l
            && owner_after(evs, i, key@) == Some(p)));
    } else {
        match evs[n - 1] {
            SplitEvent::PartComplete { key, label } => {
                match owner_after(evs, n - 1, key@) {
                    Some(q) => {
                        if q == p && !has_label(prev, label@) {
                            assert(contribs_after(evs, n, p) == prev.push(label@));
                            if label@ != l {
                                let j = choose|j: int|
                                    0 <= j < prev.push(label@).len() && prev.push(label@)[j] == l;
                                assert(prev[j] == l);
                            }
                            assert(label@ == l);
                            assert(evs[n - 1] matches SplitEvent::PartComplete {
                                key,
                                label,
                            } && label@ == l && owner_after(evs, n - 1, key@) == Some(p));
                        } else {
                            assert(false);
                        }
                    },
                    None => {
                        assert(false);
                    },
                }
            },
            _ => {
                assert(false);
            },
        }
    }
}

} // verus!
