use vstd::prelude::*;
use crate::keyed::{
    find_keyed, keyed_map, keys_distinct, lemma_keyed_map_at, lemma_keyed_map_dom,
    lemma_keyed_map_update, has_key, Keyed,
};
use crate::server::state::{
    client_names_unique, copy_strings, history_ids_unique, strs, ClientLock, ExecutionRecord,
    RecordView, ServerState, UnityClient, HISTORY_LIMIT, PendingExecution, SequenceState,
};
use crate::text::str_eq;

verus! {

/// `owner` is absent, or it is `id`.
pub open spec fn owner_matches(owner: Option<Seq<char>>, id: Seq<char>) -> bool {
    match owner {
        Some(o) => o == id,
        None => true,
    }
}

/// A pending execution of `cid` (owned by `owner`, when given) exists in `p`.
pub open spec fn pending_for_map(p: Map<Seq<char>, PendingExecution>, cid: Seq<char>, owner: Option<Seq<char>>) -> bool {
    exists|k: Seq<char>|
        #![trigger p[k]]
        p.dom().contains(k) && p[k].client_id@ == cid && owner_matches(owner, p[k].owner_id@)
}

/// A running sequence on `cid` (owned by `owner`, when given) exists in `q`.
pub open spec fn sequence_for_map(q: Map<Seq<char>, SequenceState>, cid: Seq<char>, owner: Option<Seq<char>>) -> bool {
    exists|k: Seq<char>|
        #![trigger q[k]]
        q.dom().contains(k) && q[k].client_id@ == cid && q[k].running && owner_matches(owner, q[k].owner_id@)
}

pub open spec fn spec_pending_for(s: ServerState, cid: Seq<char>, owner: Option<Seq<char>>) -> bool {
    pending_for_map(s.pending(), cid, owner)
}

pub open spec fn spec_sequence_for(s: ServerState, cid: Seq<char>, owner: Option<Seq<char>>) -> bool {
    sequence_for_map(s.sequences(), cid, owner)
}

/// Whether a client is running something: it reports itself busy, or an
/// execution or a running sequence (of `owner`, when given) targets it.
pub open spec fn spec_running(s: ServerState, cid: Seq<char>, owner: Option<Seq<char>>) -> bool {
    ||| (s.clients().dom().contains(cid) && s.clients()[cid].client_busy)
    ||| spec_pending_for(s, cid, owner)
    ||| spec_sequence_for(s, cid, owner)
}

/// Everything but the Unity clients is as it was.
pub open spec fn same_but_clients(a: ServerState, b: ServerState) -> bool {
    &&& a.web_clients == b.web_clients
    &&& a.controllers == b.controllers
    &&& a.execution_history == b.execution_history
    &&& a.pending_executions == b.pending_executions
    &&& a.active_sequences == b.active_sequences
}

pub open spec fn opt_str_ref(o: Option<&str>) -> Option<Seq<char>> {
    match o {
        Some(s) => Some(s@),
        None => None,
    }
}

/// Index of the first record whose request id is `rid`, or -1.
pub open spec fn history_index(h: Seq<RecordView>, rid: Seq<char>) -> int
    decreases h.len(),
{
    if h.len() == 0 {
        -1
    } else if h[0].request_id == rid {
        0
    } else {
        let r = history_index(h.drop_first(), rid);
        if r < 0 {
            -1
        } else {
            r + 1
        }
    }
}

/// The history after a record is added: a record with a known non-empty
/// request id replaces the old one, any other goes first, and only the newest
/// `HISTORY_LIMIT` records stay.
pub open spec fn history_after_add(h: Seq<RecordView>, item: RecordView) -> Seq<RecordView> {
    if item.request_id.len() > 0 && history_index(h, item.request_id) >= 0 {
        h.update(history_index(h, item.request_id), item)
    } else {
        let g = seq![item] + h;
        if g.len() > HISTORY_LIMIT {
            g.take(HISTORY_LIMIT as int)
        } else {
            g
        }
    }
}

pub proof fn lemma_history_index(h: Seq<RecordView>, rid: Seq<char>, i: int)
    requires
        0 <= i <= h.len(),
        forall|j: int| 0 <= j < i ==> (#[trigger] h[j]).request_id != rid,
    ensures
        i == h.len() ==> history_index(h, rid) == -1,
        i < h.len() && h[i].request_id == rid ==> history_index(h, rid) == i,
    decreases i,
{
    if i > 0 {
        assert(h[0].request_id != rid);
        assert forall|j: int| 0 <= j < i - 1 implies (#[trigger] h.drop_first()[j]).request_id
            != rid by {
            assert(h.drop_first()[j] == h[j + 1]);
        }
        lemma_history_index(h.drop_first(), rid, i - 1);
        if i < h.len() {
            assert(h.drop_first()[i - 1] == h[i]);
        }
    }
}

pub proof fn lemma_history_index_absent(h: Seq<RecordView>, rid: Seq<char>, j: int)
    requires
        history_index(h, rid) == -1,
        0 <= j < h.len(),
    ensures
        h[j].request_id != rid,
    decreases h.len(),
{
    if h[0].request_id != rid && j > 0 {
        lemma_history_index_absent(h.drop_first(), rid, j - 1);
        assert(h.drop_first()[j - 1] == h[j]);
    }
}

pub proof fn lemma_history_index_range(h: Seq<RecordView>, rid: Seq<char>)
    ensures
        -1 <= history_index(h, rid) < h.len(),
        history_index(h, rid) >= 0 ==> h[history_index(h, rid)].request_id == rid,
    decreases h.len(),
{
    if h.len() > 0 && h[0].request_id != rid {
        lemma_history_index_range(h.drop_first(), rid);
    }
}

/// What a record learns from the client it ran on: fields still unknown are
/// filled from the client's name and addresses, where these are not empty.
pub open spec fn snapshot_of(r: RecordView, c: UnityClient) -> RecordView {
    RecordView {
        client_name: if r.client_name is None && c.name@.len() > 0 {
            Some(c.name@)
        } else {
            r.client_name
        },
        client_ip_address: if r.client_ip_address is None && c.ip_address@.len() > 0 {
            Some(c.ip_address@)
        } else {
            r.client_ip_address
        },
        client_remote_address: if r.client_remote_address is None && c.remote_address@.len() > 0 {
            Some(c.remote_address@)
        } else {
            r.client_remote_address
        },
        client_ip_addresses: if r.client_ip_addresses is None && c.ip_addresses@.len() > 0 {
            Some(strs(c.ip_addresses@))
        } else {
            r.client_ip_addresses
        },
        ..r
    }
}

/// The record after `apply_client_snapshot`.
pub open spec fn with_snapshot(s: ServerState, r: RecordView) -> RecordView {
    if s.clients().dom().contains(r.client_id) {
        snapshot_of(r, s.clients()[r.client_id])
    } else {
        r
    }
}

/// A client lock that was taken or released.
#[derive(Debug)]
pub struct LockEvent {
    pub client_id: String,
    pub lock: ClientLock,
}

pub proof fn lemma_names_update(c: Seq<UnityClient>, i: int, x: UnityClient)
    requires
        client_names_unique(c),
        0 <= i < c.len(),
        x.name@ == c[i].name@,
    ensures
        client_names_unique(c.update(i, x)),
{
    let t = c.update(i, x);
    assert forall|a: int, b: int| 0 <= a < b < t.len() implies (#[trigger] t[a]).name@ != (
    #[trigger] t[b]).name@ by {
        assert(c[a].name@ != c[b].name@);
    }
}

pub proof fn lemma_history_unique_update(h: Seq<RecordView>, i: int, x: RecordView)
    requires
        history_ids_unique(h),
        0 <= i < h.len(),
        x.request_id == h[i].request_id,
    ensures
        history_ids_unique(h.update(i, x)),
{
    let t = h.update(i, x);
    assert forall|a: int, b: int|
        0 <= a < b < t.len() && (#[trigger] t[a]).request_id.len() > 0 implies t[a].request_id
        != (#[trigger] t[b]).request_id by {
        assert(h[a].request_id.len() > 0);
        assert(h[a].request_id != h[b].request_id);
    }
}

impl ServerState {
    /// Index of the Unity client `cid`, if it is known.
    pub fn find_client(&self, cid: &str) -> (r: Option<usize>)
        requires
            self.wf(),
        ensures
            match r {
                Some(i) => i < self.unity_clients@.len() && self.unity_clients@[i as int].client_id@
                    == cid@ && self.clients().dom().contains(cid@) && self.clients()[cid@]
                    == self.unity_clients@[i as int],
                None => !self.clients().dom().contains(cid@),
            },
    {
        find_keyed(&self.unity_clients, cid)
    }

    /// Puts a changed client back where it was.
    pub fn replace_client(&mut self, i: usize, c: UnityClient) -> (prev: UnityClient)
        requires
            old(self).wf(),
            i < old(self).unity_clients@.len(),
            c.client_id@ == old(self).unity_clients@[i as int].client_id@,
            c.name@ == old(self).unity_clients@[i as int].name@,
        ensures
            final(self).wf(),
            prev == old(self).unity_clients@[i as int],
            final(self).unity_clients@ == old(self).unity_clients@.update(i as int, c),
            final(self).clients() == old(self).clients().insert(c.client_id@, c),
            same_but_clients(*final(self), *old(self)),
    {
        let prev = self.unity_clients.remove(i);
        self.unity_clients.insert(i, c);
        proof {
            let o = old(self).unity_clients@;
            assert(self.unity_clients@ == o.update(i as int, c));
            lemma_keyed_map_update(o, i as int, c);
            lemma_names_update(o, i as int, c);
        }
        prev
    }

    /// Whether client `cid` runs something (for `owner` alone, when given).
    pub fn is_client_running(&self, cid: &str, owner: Option<&str>) -> (r: bool)
        requires
            self.wf(),
        ensures
            r == spec_running(*self, cid@, opt_str_ref(owner)),
    {
        let ghost ow = opt_str_ref(owner);
        if let Some(i) = self.find_client(cid) {
            if self.unity_clients[i].client_busy {
                return true;
            }
        }
        let mut i: usize = 0;
        while i < self.pending_executions.len()
            invariant
                self.wf(),
                i <= self.pending_executions@.len(),
                ow == opt_str_ref(owner),
                forall|j: int|
                    0 <= j < i ==> !((#[trigger] self.pending_executions@[j]).client_id@ == cid@
                        && owner_matches(ow, self.pending_executions@[j].owner_id@)),
            decreases self.pending_executions@.len() - i,
        {
            let p = &self.pending_executions[i];
            let owner_ok = match owner {
                Some(o) => str_eq(p.owner_id.as_str(), o),
                None => true,
            };
            if str_eq(p.client_id.as_str(), cid) && owner_ok {
                proof {
                    lemma_keyed_map_at(self.pending_executions@, i as int);
                    let k = self.pending_executions@[i as int].request_id@;
                    assert(self.pending()[k] == self.pending_executions@[i as int]);
                }
                return true;
            }
            i = i + 1;
        }
        assert(!spec_pending_for(*self, cid@, ow)) by {
            assert forall|k: Seq<char>| #[trigger]
                self.pending().dom().contains(k) implies !(self.pending()[k].client_id@ == cid@
                && owner_matches(ow, self.pending()[k].owner_id@)) by {
                lemma_keyed_map_dom(self.pending_executions@, k);
                let j = choose|j: int|
                    0 <= j < self.pending_executions@.len()
                        && #[trigger] self.pending_executions@[j].key() == k;
                lemma_keyed_map_at(self.pending_executions@, j);
            }
        }
        let mut i: usize = 0;
        while i < self.active_sequences.len()
            invariant
                self.wf(),
                i <= self.active_sequences@.len(),
                ow == opt_str_ref(owner),
                forall|j: int|
                    0 <= j < i ==> !((#[trigger] self.active_sequences@[j]).client_id@ == cid@
                        && self.active_sequences@[j].running && owner_matches(
                        ow,
                        self.active_sequences@[j].owner_id@,
                    )),
            decreases self.active_sequences@.len() - i,
        {
            let q = &self.active_sequences[i];
            let owner_ok = match owner {
                Some(o) => str_eq(q.owner_id.as_str(), o),
                None => true,
            };
            if str_eq(q.client_id.as_str(), cid) && q.running && owner_ok {
                proof {
                    lemma_keyed_map_at(self.active_sequences@, i as int);
                    let k = self.active_sequences@[i as int].sequence_id@;
                    assert(self.sequences()[k] == self.active_sequences@[i as int]);
                }
                return true;
            }
            i = i + 1;
        }
        assert(!spec_sequence_for(*self, cid@, ow)) by {
            assert forall|k: Seq<char>| #[trigger]
                self.sequences().dom().contains(k) implies !(self.sequences()[k].client_id@ == cid@
                && self.sequences()[k].running && owner_matches(
                ow,
                self.sequences()[k].owner_id@,
            )) by {
                lemma_keyed_map_dom(self.active_sequences@, k);
                let j = choose|j: int|
                    0 <= j < self.active_sequences@.len()
                        && #[trigger] self.active_sequences@[j].key() == k;
                lemma_keyed_map_at(self.active_sequences@, j);
            }
        }
        false
    }

    /// Index of the history record with request id `rid` (never for an empty id).
    pub fn find_history(&self, rid: &str) -> (r: Option<usize>)
        requires
            self.wf(),
        ensures
            match r {
                Some(i) => rid@.len() > 0 && i < self.execution_history@.len() && i as int
                    == history_index(self.history(), rid@),
                None => rid@.len() == 0 || history_index(self.history(), rid@) == -1,
            },
    {
        if rid.is_empty() {
            return None;
        }
        let mut i: usize = 0;
        while i < self.execution_history.len()
            invariant
                self.wf(),
                rid@.len() > 0,
                i <= self.execution_history@.len(),
                forall|j: int| 0 <= j < i ==> (#[trigger] self.history()[j]).request_id != rid@,
            decreases self.execution_history@.len() - i,
        {
            if str_eq(self.execution_history[i].request_id.as_str(), rid) {
                proof {
                    lemma_history_index(self.history(), rid@, i as int);
                }
                return Some(i);
            }
            i = i + 1;
        }
        proof {
            lemma_history_index(self.history(), rid@, i as int);
        }
        None
    }

    /// Records an execution in the history, newest first.
    pub fn add_history(&mut self, item: ExecutionRecord)
        requires
            old(self).wf(),
        ensures
            final(self).wf(),
            final(self).history() == history_after_add(old(self).history(), item@),
            final(self).unity_clients == old(self).unity_clients,
            final(self).web_clients == old(self).web_clients,
            final(self).controllers == old(self).controllers,
            final(self).pending_executions == old(self).pending_executions,
            final(self).active_sequences == old(self).active_sequences,
    {
        let ghost h = self.history();
        let ghost iv = item@;
        match self.find_history(item.request_id.as_str()) {
            Some(i) => {
                proof {
                    lemma_history_index_range(h, iv.request_id);
                }
                self.execution_history.set(i, item);
                proof {
                    assert(self.history() =~= h.update(i as int, iv));
                    lemma_history_unique_update(h, i as int, iv);
                }
            },
            None => {
                self.execution_history.insert(0, item);
                assert(self.history() =~= seq![iv] + h);
                proof {
                    let g = seq![iv] + h;
                    assert forall|a: int, b: int|
                        0 <= a < b < g.len() && (#[trigger] g[a]).request_id.len() > 0 implies g[a].request_id
                        != (#[trigger] g[b]).request_id by {
                        if a == 0 {
                            assert(g[b] == h[b - 1]);
                            lemma_history_index_absent(h, iv.request_id, b - 1);
                        } else {
                            assert(g[a] == h[a - 1] && g[b] == h[b - 1]);
                        }
                    }
                }
                if self.execution_history.len() > HISTORY_LIMIT {
                    self.execution_history.truncate(HISTORY_LIMIT);
                    let ghost g = seq![iv] + h;
                    assert(self.history() =~= g.take(HISTORY_LIMIT as int));
                }
            },
        }
    }

    /// Fills what a record does not know yet from the client it ran on.
    pub fn apply_client_snapshot(&self, record: &mut ExecutionRecord)
        requires
            self.wf(),
        ensures
            final(record)@ == with_snapshot(*self, old(record)@),
    {
        let ghost r0 = record@;
        if let Some(i) = self.find_client(record.client_id.as_str()) {
            let c = &self.unity_clients[i];
            if record.client_name.is_none() && !c.name.as_str().is_empty() {
                record.client_name = Some(c.name.clone());
            }
            if record.client_ip_address.is_none() && !c.ip_address.as_str().is_empty() {
                record.client_ip_address = Some(c.ip_address.clone());
            }
            if record.client_remote_address.is_none() && !c.remote_address.as_str().is_empty() {
                record.client_remote_address = Some(c.remote_address.clone());
            }
            if record.client_ip_addresses.is_none() && c.ip_addresses.len() > 0 {
                record.client_ip_addresses = Some(copy_strings(&c.ip_addresses));
            }
            assert(record@ =~= snapshot_of(r0, *c));
        }
    }
}

} // verus!
