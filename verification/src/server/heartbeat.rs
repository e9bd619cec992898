use vstd::prelude::*;
use crate::keyed::{keyed_map, keys_distinct, lemma_keyed_map_update, Keyed};
use crate::server::registry::same_but_clients;
use crate::server::state::{client_names_unique, ServerState, UnityClient, WebClient};
use crate::text::copy_str;

verus! {

/// The (client id, connection id) of the clients that `keep` picks, in order.
pub open spec fn clients_where(cs: Seq<UnityClient>, alive: bool) -> Seq<(Seq<char>, Seq<char>)>
    decreases cs.len(),
{
    if cs.len() == 0 {
        Seq::empty()
    } else {
        let r = clients_where(cs.drop_last(), alive);
        if cs.last().is_alive == alive {
            r.push((cs.last().client_id@, cs.last().connection_id@))
        } else {
            r
        }
    }
}

/// The ids of the sockets whose liveness is `alive`, in order.
pub open spec fn sockets_where(ws: Seq<WebClient>, alive: bool) -> Seq<Seq<char>>
    decreases ws.len(),
{
    if ws.len() == 0 {
        Seq::empty()
    } else {
        let r = sockets_where(ws.drop_last(), alive);
        if ws.last().is_alive == alive {
            r.push(ws.last().socket_id@)
        } else {
            r
        }
    }
}

/// One round of pings: who failed to answer the last one, and who is pinged now.
#[derive(Debug)]
pub struct HeartbeatRound {
    pub unity_failures: Vec<(String, String)>,
    pub unity_pings: Vec<(String, String)>,
    pub web_failures: Vec<String>,
    pub web_pings: Vec<String>,
}

pub open spec fn pair_views(v: Seq<(String, String)>) -> Seq<(Seq<char>, Seq<char>)> {
    Seq::new(v.len(), |i: int| (v[i].0@, v[i].1@))
}

pub open spec fn id_views(v: Seq<String>) -> Seq<Seq<char>> {
    Seq::new(v.len(), |i: int| v[i]@)
}

/// The client, counted as silent until it answers.
pub open spec fn silenced(c: UnityClient) -> UnityClient {
    UnityClient { is_alive: false, ..c }
}

/// The socket, counted as silent until it answers.
pub open spec fn silenced_web(w: WebClient) -> WebClient {
    WebClient { is_alive: false, ..w }
}

/// A client or socket that did not answer since the last round is stale.
pub open spec fn is_stale(c: UnityClient, now: i64, stale_ms: u64) -> bool {
    c.available && now - c.last_seen_at > stale_ms * 1_000_000
}

impl ServerState {
    /// Starts a round of pings: what did not answer the last round fails, and
    /// every other client and socket is pinged and counts as silent until it
    /// answers.
    pub fn begin_heartbeat(&mut self) -> (r: HeartbeatRound)
        requires
            old(self).wf(),
        ensures
            final(self).wf(),
            pair_views(r.unity_failures@) == clients_where(old(self).unity_clients@, false),
            pair_views(r.unity_pings@) == clients_where(old(self).unity_clients@, true),
            id_views(r.web_failures@) == sockets_where(old(self).web_clients@, false),
            id_views(r.web_pings@) == sockets_where(old(self).web_clients@, true),
            final(self).unity_clients@ == Seq::new(
                old(self).unity_clients@.len(),
                |j: int| silenced(old(self).unity_clients@[j]),
            ),
            final(self).web_clients@ == Seq::new(
                old(self).web_clients@.len(),
                |j: int| silenced_web(old(self).web_clients@[j]),
            ),
            final(self).controllers == old(self).controllers,
            final(self).execution_history == old(self).execution_history,
            final(self).pending_executions == old(self).pending_executions,
            final(self).active_sequences == old(self).active_sequences,
    {
        let ghost s0 = *self;
        let mut unity_failures: Vec<(String, String)> = Vec::new();
        let mut unity_pings: Vec<(String, String)> = Vec::new();
        let mut i: usize = 0;
        while i < self.unity_clients.len()
            invariant
                s0.wf(),
                self.web_clients == s0.web_clients,
                self.controllers == s0.controllers,
                self.execution_history == s0.execution_history,
                self.pending_executions == s0.pending_executions,
                self.active_sequences == s0.active_sequences,
                i <= self.unity_clients@.len(),
                self.unity_clients@.len() == s0.unity_clients@.len(),
                forall|j: int|
                    0 <= j < i ==> #[trigger] self.unity_clients@[j] == silenced(s0.unity_clients@[j]),
                forall|j: int| i <= j < self.unity_clients@.len() ==> #[trigger] self.unity_clients@[j] == s0.unity_clients@[j],
                pair_views(unity_failures@) == clients_where(s0.unity_clients@.subrange(0, i as int), false),
                pair_views(unity_pings@) == clients_where(s0.unity_clients@.subrange(0, i as int), true),
            decreases self.unity_clients@.len() - i,
        {
            let ghost a = s0.unity_clients@.subrange(0, i + 1);
            assert(a.drop_last() == s0.unity_clients@.subrange(0, i as int));
            assert(a.last() == s0.unity_clients@[i as int]);
            let pair = (self.unity_clients[i].client_id.clone(), self.unity_clients[i].connection_id.clone());
            if !self.unity_clients[i].is_alive {
                let ghost before = unity_failures@;
                unity_failures.push(pair);
                assert(pair_views(unity_failures@) =~= pair_views(before).push((pair.0@, pair.1@)));
            } else {
                let mut c = self.unity_clients.remove(i);
                c.is_alive = false;
                self.unity_clients.insert(i, c);
                let ghost before = unity_pings@;
                unity_pings.push(pair);
                assert(pair_views(unity_pings@) =~= pair_views(before).push((pair.0@, pair.1@)));
            }
            i = i + 1;
        }
        let mut web_failures: Vec<String> = Vec::new();
        let mut web_pings: Vec<String> = Vec::new();
        let mut i: usize = 0;
        while i < self.web_clients.len()
            invariant
                s0.wf(),
                self.controllers == s0.controllers,
                self.execution_history == s0.execution_history,
                self.pending_executions == s0.pending_executions,
                self.active_sequences == s0.active_sequences,
                self.unity_clients@ == Seq::new(
                    s0.unity_clients@.len(),
                    |j: int| silenced(s0.unity_clients@[j]),
                ),
                i <= self.web_clients@.len(),
                self.web_clients@.len() == s0.web_clients@.len(),
                forall|j: int|
                    0 <= j < i ==> #[trigger] self.web_clients@[j] == silenced_web(s0.web_clients@[j]),
                forall|j: int| i <= j < self.web_clients@.len() ==> #[trigger] self.web_clients@[j] == s0.web_clients@[j],
                id_views(web_failures@) == sockets_where(s0.web_clients@.subrange(0, i as int), false),
                id_views(web_pings@) == sockets_where(s0.web_clients@.subrange(0, i as int), true),
            decreases self.web_clients@.len() - i,
        {
            let ghost a = s0.web_clients@.subrange(0, i + 1);
            assert(a.drop_last() == s0.web_clients@.subrange(0, i as int));
            assert(a.last() == s0.web_clients@[i as int]);
            let id = self.web_clients[i].socket_id.clone();
            if !self.web_clients[i].is_alive {
                let ghost before = web_failures@;
                web_failures.push(id);
                assert(id_views(web_failures@) =~= id_views(before).push(id@));
            } else {
                let mut w = self.web_clients.remove(i);
                w.is_alive = false;
                self.web_clients.insert(i, w);
                let ghost before = web_pings@;
                web_pings.push(id);
                assert(id_views(web_pings@) =~= id_views(before).push(id@));
            }
            i = i + 1;
        }
        proof {
            assert(s0.unity_clients@.subrange(0, s0.unity_clients@.len() as int) == s0.unity_clients@);
            assert(s0.web_clients@.subrange(0, s0.web_clients@.len() as int) == s0.web_clients@);
            assert(self.web_clients@ =~= Seq::new(
                s0.web_clients@.len(),
                |j: int| silenced_web(s0.web_clients@[j]),
            ));
            let u = self.unity_clients@;
            assert forall|a: int, b: int| 0 <= a < b < u.len() implies #[trigger] u[a].key() != #[trigger] u[b].key() by {
                assert(s0.unity_clients@[a].key() != s0.unity_clients@[b].key());
            }
            assert forall|a: int, b: int| 0 <= a < b < u.len() implies (#[trigger] u[a]).name@ != (#[trigger] u[b]).name@ by {
                assert(s0.unity_clients@[a].name@ != s0.unity_clients@[b].name@);
            }
            let w = self.web_clients@;
            assert forall|a: int, b: int| 0 <= a < b < w.len() implies #[trigger] w[a].key() != #[trigger] w[b].key() by {
                assert(s0.web_clients@[a].key() != s0.web_clients@[b].key());
            }
        }
        HeartbeatRound { unity_failures, unity_pings, web_failures, web_pings }
    }
}


/// Whether a client turns unavailable: it was available and has been silent
/// longer than `stale_ms` milliseconds at `now` (nanoseconds).
pub open spec fn goes_stale(c: UnityClient, now: i64, stale_ms: u64) -> bool {
    c.available && now - c.last_seen_at > stale_ms * 1_000_000
}

/// The client after it turns unavailable at `now` for want of heartbeats.
pub open spec fn is_marked_stale(new: UnityClient, old: UnityClient, now: i64) -> bool {
    &&& new == UnityClient {
        available: false,
        availability_changed_at: now,
        unavailable_reason: new.unavailable_reason,
        ..old
    }
    &&& new.unavailable_reason@ == "heartbeat_timeout"@
}

/// The ids of the clients that turn unavailable, in order.
pub open spec fn stale_ids(cs: Seq<UnityClient>, now: i64, stale_ms: u64) -> Seq<Seq<char>>
    decreases cs.len(),
{
    if cs.len() == 0 {
        Seq::empty()
    } else {
        let r = stale_ids(cs.drop_last(), now, stale_ms);
        if goes_stale(cs.last(), now, stale_ms) {
            r.push(cs.last().client_id@)
        } else {
            r
        }
    }
}

impl ServerState {
    /// Makes unavailable, at `now`, every available client that has been
    /// silent for longer than `stale_ms`; gives their ids.
    pub fn mark_stale_unity_clients(&mut self, now: i64, stale_ms: u64) -> (r: Vec<String>)
        requires
            old(self).wf(),
        ensures
            final(self).wf(),
            same_but_clients(*final(self), *old(self)),
            id_views(r@) == stale_ids(old(self).unity_clients@, now, stale_ms),
            final(self).unity_clients@.len() == old(self).unity_clients@.len(),
            forall|j: int|
                0 <= j < old(self).unity_clients@.len() ==> if goes_stale(
                    #[trigger] old(self).unity_clients@[j],
                    now,
                    stale_ms,
                ) {
                    is_marked_stale(final(self).unity_clients@[j], old(self).unity_clients@[j], now)
                } else {
                    final(self).unity_clients@[j] == old(self).unity_clients@[j]
                },
    {
        let ghost s0 = *self;
        let mut ids: Vec<String> = Vec::new();
        let mut i: usize = 0;
        while i < self.unity_clients.len()
            invariant
                s0.wf(),
                same_but_clients(*self, s0),
                i <= self.unity_clients@.len(),
                self.unity_clients@.len() == s0.unity_clients@.len(),
                forall|j: int|
                    0 <= j < i ==> if goes_stale(#[trigger] s0.unity_clients@[j], now, stale_ms) {
                        is_marked_stale(self.unity_clients@[j], s0.unity_clients@[j], now)
                    } else {
                        self.unity_clients@[j] == s0.unity_clients@[j]
                    },
                forall|j: int| i <= j < self.unity_clients@.len() ==> #[trigger] self.unity_clients@[j] == s0.unity_clients@[j],
                id_views(ids@) == stale_ids(s0.unity_clients@.subrange(0, i as int), now, stale_ms),
            decreases self.unity_clients@.len() - i,
        {
            let ghost a = s0.unity_clients@.subrange(0, i + 1);
            assert(a.drop_last() == s0.unity_clients@.subrange(0, i as int));
            assert(a.last() == s0.unity_clients@[i as int]);
            let c = &self.unity_clients[i];
            let silent: i128 = (now as i128) - (c.last_seen_at as i128);
            let limit: i128 = (stale_ms as i128) * 1_000_000;
            if c.available && silent > limit {
                let id = c.client_id.clone();
                let mut m = self.unity_clients.remove(i);
                m.available = false;
                m.availability_changed_at = now;
                m.unavailable_reason = copy_str("heartbeat_timeout");
                self.unity_clients.insert(i, m);
                let ghost before = ids@;
                ids.push(id);
                assert(id_views(ids@) =~= id_views(before).push(id@));
            }
            i = i + 1;
        }
        proof {
            assert(s0.unity_clients@.subrange(0, s0.unity_clients@.len() as int) == s0.unity_clients@);
            let u = self.unity_clients@;
            assert forall|a: int, b: int| 0 <= a < b < u.len() implies #[trigger] u[a].key() != #[trigger] u[b].key() by {
                assert(s0.unity_clients@[a].key() != s0.unity_clients@[b].key());
            }
            assert forall|a: int, b: int| 0 <= a < b < u.len() implies (#[trigger] u[a]).name@ != (#[trigger] u[b]).name@ by {
                assert(s0.unity_clients@[a].name@ != s0.unity_clients@[b].name@);
            }
        }
        ids
    }
}

} // verus!
