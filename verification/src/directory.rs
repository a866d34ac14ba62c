//! Peer-address directory: a background poller asks each configured
//! peer for its status and stores the resolved node identity under the
//! peer's URL.  Entries are overwritten on each successful poll and
//! never evicted; per-peer failures leave the directory untouched.
use vstd::prelude::*;
use crate::peerid::{node_id_of_str, parse_node_id};
use crate::strkv::{kv_get, kv_unique, kv_upsert};

verus! {

/// Mapping from peer URL to the peer's resolved node identity, in
/// insertion order.  Written only by the poller; consumers take
/// snapshots.
pub struct PeerDirectory {
    pub entries: Vec<(String, String)>,
}

impl PeerDirectory {
    /// Keys are pairwise distinct.
    pub open spec fn wf(self) -> bool {
        kv_unique(self.entries@)
    }

    /// An empty directory.
    pub fn new() -> (r: PeerDirectory)
        ensures
            r.wf(),
            r.entries@ =~= Seq::<(String, String)>::empty(),
    {
        PeerDirectory { entries: Vec::new() }
    }

    /// Applies one poll answer from `url`: an address token that names
    /// a valid node identity becomes (or overwrites) the entry for
    /// that URL; a missing or unparsable token changes nothing.
    /// Discovery is best-effort — no answer is ever fatal.
    pub fn note_status(&mut self, url: String, token: Option<String>)
        requires
            old(self).wf(),
        ensures
            final(self).wf(),
            (match token {
                None => final(self).entries@ == old(self).entries@,
                Some(t) => match node_id_of_str(t@) {
                    None => final(self).entries@ == old(self).entries@,
                    Some(id) => {
                        &&& (kv_get(final(self).entries@, url@) matches Some(v) && v@ == id)
                        &&& (forall|k2: Seq<char>|
                            k2 != url@ ==> kv_get(final(self).entries@, k2) == kv_get(
                                old(self).entries@,
                                k2,
                            ))
                        &&& (forall|j: int|
                            0 <= j < old(self).entries@.len() ==> final(self).entries@[j].0@ == old(
                                self,
                            ).entries@[j].0@)
                    },
                },
            }),
    {
        match token {
            None => {},
            Some(t) => {
                match parse_node_id(t.as_str()) {
                    None => {},
                    Some(id) => {
                        kv_upsert(&mut self.entries, url, id);
                    },
                }
            },
        }
    }

    /// A copy of the directory's entries for a consumer, in stored
    /// order.
    pub fn snapshot(&self) -> (r: Vec<(String, String)>)
        ensures
            r@ == self.entries@,
    {
        let mut r: Vec<(String, String)> = Vec::new();
        let mut i: usize = 0;
        while i < self.entries.len()
            invariant
                i <= self.entries@.len(),
                r@.len() == i,
                forall|j: int| 0 <= j < i ==> r@[j] == self.entries@[j],
            decreases self.entries@.len() - i,
        {
            r.push((self.entries[i].0.clone(), self.entries[i].1.clone()));
            i = i + 1;
        }
        proof {
            assert(r@ =~= self.entries@);
        }
        r
    }
}

} // verus!
