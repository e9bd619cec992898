use vstd::prelude::*;
use crate::keyed::{lemma_keyed_map_at, lemma_keyed_map_dom, lemma_keyed_map_update, keyed_map, Keyed};
use crate::server::registry::{same_but_clients, spec_running, spec_pending_for, spec_sequence_for, LockEvent, owner_matches};
use crate::server::state::{
    ClientLock, ControllerIdentity, RequestError, ServerState, StatusCode, UnityClient,
};
use crate::text::{concat3, str_eq};

verus! {

/// The client with its lock taken away.
pub open spec fn unlocked(c: UnityClient) -> UnityClient {
    UnityClient { lock: None, ..c }
}

/// A client's lock is released when its owner runs nothing on the client any more.
pub open spec fn should_release(s: ServerState, cid: Seq<char>) -> bool {
    &&& s.clients().dom().contains(cid)
    &&& s.clients()[cid].lock is Some
    &&& !spec_running(s, cid, Some(s.clients()[cid].lock->0.owner_id@))
}

/// The client after `controller` takes or refreshes its lock at time `now`.
pub open spec fn acquired(c: UnityClient, controller: ControllerIdentity, now: i64) -> UnityClient {
    match c.lock {
        Some(l) if l.owner_id@ == controller.id@ => UnityClient {
            lock: Some(ClientLock { last_seen_at: now, ..l }),
            ..c
        },
        _ => UnityClient {
            lock: Some(
                ClientLock {
                    owner_id: controller.id,
                    owner_type: controller.controller_type,
                    acquired_at: now,
                    last_seen_at: now,
                },
            ),
            ..c
        },
    }
}

/// Whether `owner`'s idle lock on `c` goes when `owner` leaves.
pub open spec fn released_on_leave(s: ServerState, c: UnityClient, owner: Seq<char>) -> bool {
    &&& c.lock is Some
    &&& c.lock->0.owner_id@ == owner
    &&& !spec_running(s, c.client_id@, Some(owner))
}

/// The clients after every idle lock of `owner` is released.
pub open spec fn released_for_owner(s: ServerState, owner: Seq<char>) -> Seq<UnityClient> {
    Seq::new(
        s.unity_clients@.len(),
        |j: int|
            if released_on_leave(s, s.unity_clients@[j], owner) {
                unlocked(s.unity_clients@[j])
            } else {
                s.unity_clients@[j]
            },
    )
}

pub open spec fn not_online_message(cid: Seq<char>) -> Seq<char> {
    "Unity client "@ + cid + " is not online."@
}

/// Why a client cannot take an execution now, with the status that says so.
pub open spec fn prepare_error(
    s: ServerState,
    cid: Seq<char>,
    controller_id: Seq<char>,
    allow_busy: bool,
    allow_parallel: bool,
    sender_closed: bool,
) -> Option<(StatusCode, Seq<char>)> {
    if !s.clients().dom().contains(cid) || sender_closed {
        Some((StatusCode::NotFound, not_online_message(cid)))
    } else {
        let c = s.clients()[cid];
        if !c.available {
            Some((StatusCode::Conflict, "Unity client "@ + cid + " is unavailable."@))
        } else if c.lock is Some && c.lock->0.owner_id@ != controller_id && !allow_parallel {
            Some((StatusCode::Locked, "Unity client "@ + cid + " is locked by another controller."@))
        } else if c.client_busy && !allow_parallel {
            let detail = if c.current_request_id@.len() == 0 {
                "Unity client reports local busy."@
            } else {
                "Unity client reports local busy with request "@ + c.current_request_id@ + "."@
            };
            Some((StatusCode::Conflict, "Unity client "@ + cid + " is already busy. "@ + detail))
        } else if !allow_busy && !allow_parallel && spec_running(s, cid, None) {
            Some((StatusCode::Conflict, "Unity client "@ + cid + " is already running a request."@))
        } else {
            None
        }
    }
}

/// Whether a successful preparation takes the client's lock.
pub open spec fn takes_lock(c: UnityClient, controller_id: Seq<char>, allow_parallel: bool) -> bool {
    !allow_parallel || (c.lock is Some && c.lock->0.owner_id@ == controller_id)
}

/// Changing only the locks of clients does not change what runs on them.
pub proof fn lemma_running_ignores_locks(a: ServerState, b: ServerState, cid: Seq<char>, o: Option<Seq<char>>)
    requires
        same_but_clients(a, b),
        a.clients().dom() == b.clients().dom(),
        forall|k: Seq<char>| #[trigger] a.clients().dom().contains(k) ==> a.clients()[k].client_busy
            == b.clients()[k].client_busy,
    ensures
        spec_running(a, cid, o) == spec_running(b, cid, o),
{
    assert(a.pending() == b.pending());
    assert(a.sequences() == b.sequences());
    assert(spec_pending_for(a, cid, o) == spec_pending_for(b, cid, o));
    assert(spec_sequence_for(a, cid, o) == spec_sequence_for(b, cid, o));
}

fn copy_lock(l: &ClientLock) -> (r: ClientLock)
    ensures
        r == *l,
{
    ClientLock {
        owner_id: l.owner_id.clone(),
        owner_type: l.owner_type.clone(),
        acquired_at: l.acquired_at,
        last_seen_at: l.last_seen_at,
    }
}

fn error(status: StatusCode, message: String) -> (e: RequestError)
    ensures
        e.status == status,
        e.message == message,
{
    RequestError { message, status }
}

impl ServerState {
    /// Drops the client's lock when its
    /// owner runs nothing on it any more.
    pub fn release_client_lock_if_idle(&mut self, cid: &str) -> (r: Option<LockEvent>)
        requires
            old(self).wf(),
        ensures
            final(self).wf(),
            same_but_clients(*final(self), *old(self)),
            should_release(*old(self), cid@) ==> {
                &&& final(self).clients() == old(self).clients().insert(
                    cid@,
                    unlocked(old(self).clients()[cid@]),
                )
                &&& r is Some
                &&& r->0.client_id@ == cid@
                &&& r->0.lock == old(self).clients()[cid@].lock->0
            },
            !should_release(*old(self), cid@) ==> *final(self) == *old(self) && r is None,
    {
        let i = match self.find_client(cid) {
            Some(i) => i,
            None => return None,
        };
        let owner = match &self.unity_clients[i].lock {
            Some(l) => l.owner_id.clone(),
            None => return None,
        };
        if self.is_client_running(cid, Some(owner.as_str())) {
            return None;
        }
        let mut c = self.unity_clients.remove(i);
        let lock = c.lock.take();
        let ghost c2 = c;
        self.unity_clients.insert(i, c);
        proof {
            let o = old(self).unity_clients@;
            assert(self.unity_clients@ == o.update(i as int, c2));
            lemma_keyed_map_update(o, i as int, c2);
            crate::server::registry::lemma_names_update(o, i as int, c2);
        }
        match lock {
            Some(l) => Some(LockEvent { client_id: c2_id(&self.unity_clients[i]), lock: l }),
            None => None,
        }
    }

    /// `controller` takes the client's lock, or
    /// refreshes it when it holds it already.
    pub fn acquire_client_lock(&mut self, i: usize, controller: &ControllerIdentity, now: i64) -> (r: Option<LockEvent>)
        requires
            old(self).wf(),
            i < old(self).unity_clients@.len(),
        ensures
            final(self).wf(),
            same_but_clients(*final(self), *old(self)),
            final(self).unity_clients@ == old(self).unity_clients@.update(
                i as int,
                acquired(old(self).unity_clients@[i as int], *controller, now),
            ),
            final(self).clients() == old(self).clients().insert(
                old(self).unity_clients@[i as int].client_id@,
                acquired(old(self).unity_clients@[i as int], *controller, now),
            ),
            match r {
                Some(ev) => ev.client_id@ == old(self).unity_clients@[i as int].client_id@
                    && Some(ev.lock) == acquired(old(self).unity_clients@[i as int], *controller, now).lock
                    && !(old(self).unity_clients@[i as int].lock is Some
                    && old(self).unity_clients@[i as int].lock->0.owner_id@ == controller.id@),
                None => old(self).unity_clients@[i as int].lock is Some
                    && old(self).unity_clients@[i as int].lock->0.owner_id@ == controller.id@,
            },
    {
        let mut c = self.unity_clients.remove(i);
        let ghost c0 = c;
        let owned = match &c.lock {
            Some(l) => str_eq(l.owner_id.as_str(), controller.id.as_str()),
            None => false,
        };
        let r = if owned {
            match c.lock.take() {
                Some(l) => {
                    c.lock = Some(ClientLock { last_seen_at: now, ..l });
                },
                None => {},
            }
            None
        } else {
            let l = ClientLock {
                owner_id: controller.id.clone(),
                owner_type: controller.controller_type.clone(),
                acquired_at: now,
                last_seen_at: now,
            };
            let ev = LockEvent { client_id: c.client_id.clone(), lock: copy_lock(&l) };
            c.lock = Some(l);
            Some(ev)
        };
        assert(c == acquired(c0, *controller, now));
        let ghost c2 = c;
        self.unity_clients.insert(i, c);
        proof {
            let o = old(self).unity_clients@;
            assert(self.unity_clients@ == o.update(i as int, c2));
            lemma_keyed_map_update(o, i as int, c2);
            lemma_keyed_map_at(o, i as int);
            crate::server::registry::lemma_names_update(o, i as int, c2);
        }
        r
    }

    /// When a controller has no
    /// socket left, every lock of it that guards nothing running goes.
    pub fn release_idle_locks_for_controller(&mut self, owner: &str) -> (r: Vec<LockEvent>)
        requires
            old(self).wf(),
        ensures
            final(self).wf(),
            same_but_clients(*final(self), *old(self)),
            final(self).unity_clients@ == released_for_owner(*old(self), owner@),
    {
        let ghost s0 = *self;
        let mut events: Vec<LockEvent> = Vec::new();
        let mut i: usize = 0;
        while i < self.unity_clients.len()
            invariant
                self.wf(),
                s0.wf(),
                same_but_clients(*self, s0),
                i <= self.unity_clients@.len(),
                self.unity_clients@.len() == s0.unity_clients@.len(),
                forall|j: int|
                    0 <= j < self.unity_clients@.len() ==> (#[trigger] self.unity_clients@[j]).client_id
                        == s0.unity_clients@[j].client_id && self.unity_clients@[j].client_busy
                        == s0.unity_clients@[j].client_busy,
                forall|j: int|
                    0 <= j < i ==> #[trigger] self.unity_clients@[j] == released_for_owner(s0, owner@)[j],
                forall|j: int|
                    i <= j < self.unity_clients@.len() ==> #[trigger] self.unity_clients@[j]
                        == s0.unity_clients@[j],
            decreases self.unity_clients@.len() - i,
        {
            let owned = match &self.unity_clients[i].lock {
                Some(l) => str_eq(l.owner_id.as_str(), owner),
                None => false,
            };
            proof {
                assert forall|k: Seq<char>| #[trigger]
                    self.clients().dom().contains(k) <==> s0.clients().dom().contains(k) by {
                    lemma_keyed_map_dom(self.unity_clients@, k);
                    lemma_keyed_map_dom(s0.unity_clients@, k);
                    if crate::keyed::has_key(self.unity_clients@, k) {
                        let j = choose|j: int| 0 <= j < self.unity_clients@.len() && #[trigger] self.unity_clients@[j].key() == k;
                        assert(s0.unity_clients@[j].key() == k);
                    }
                    if crate::keyed::has_key(s0.unity_clients@, k) {
                        let j = choose|j: int| 0 <= j < s0.unity_clients@.len() && #[trigger] s0.unity_clients@[j].key() == k;
                        assert(self.unity_clients@[j].key() == k);
                    }
                }
                assert(self.clients().dom() =~= s0.clients().dom());
                assert forall|k: Seq<char>| #[trigger] self.clients().dom().contains(k) implies
                    self.clients()[k].client_busy == s0.clients()[k].client_busy by {
                    lemma_keyed_map_dom(self.unity_clients@, k);
                    let j = choose|j: int| 0 <= j < self.unity_clients@.len() && #[trigger] self.unity_clients@[j].key() == k;
                    lemma_keyed_map_at(self.unity_clients@, j);
                    lemma_keyed_map_at(s0.unity_clients@, j);
                }
                lemma_running_ignores_locks(*self, s0, self.unity_clients@[i as int].client_id@, Some(owner@));
            }
            let ghost before = self.unity_clients@;
            if owned {
                let cid = self.unity_clients[i].client_id.clone();
                if !self.is_client_running(cid.as_str(), Some(owner)) {
                    let mut c = self.unity_clients.remove(i);
                    let lock = c.lock.take();
                    let ghost c2 = c;
                    self.unity_clients.insert(i, c);
                    proof {
                        assert(self.unity_clients@ == before.update(i as int, c2));
                        lemma_keyed_map_update(before, i as int, c2);
                        crate::server::registry::lemma_names_update(before, i as int, c2);
                        assert(c2 == unlocked(s0.unity_clients@[i as int]));
                    }
                    match lock {
                        Some(l) => {
                            events.push(LockEvent { client_id: cid, lock: l });
                        },
                        None => {},
                    }
                }
            }
            i = i + 1;
        }
        proof {
            assert(self.unity_clients@ =~= released_for_owner(s0, owner@));
        }
        events
    }
}


/// `b` is `a` with its busy report cleared.
pub open spec fn busy_cleared(b: UnityClient, a: UnityClient) -> bool {
    &&& b == UnityClient {
        client_busy: false,
        current_request_id: b.current_request_id,
        current_method_name: b.current_method_name,
        ..a
    }
    &&& b.current_request_id@.len() == 0
    &&& b.current_method_name@.len() == 0
}

/// A finished request clears the busy report of the client that ran it.
pub open spec fn clears_busy(s: ServerState, cid: Seq<char>, rid: Seq<char>) -> bool {
    &&& s.clients().dom().contains(cid)
    &&& s.clients()[cid].client_busy
    &&& s.clients()[cid].current_request_id@ == rid
}

impl ServerState {
    /// Clears the busy report of client `cid` when it was about request `rid`.
    pub fn clear_client_busy_for_finished_request(&mut self, cid: &str, rid: &str) -> (r: bool)
        requires
            old(self).wf(),
        ensures
            final(self).wf(),
            same_but_clients(*final(self), *old(self)),
            r == clears_busy(*old(self), cid@, rid@),
            r ==> final(self).clients().dom() == old(self).clients().dom() && busy_cleared(
                final(self).clients()[cid@],
                old(self).clients()[cid@],
            ) && final(self).clients() == old(self).clients().insert(cid@, final(self).clients()[cid@]),
            !r ==> *final(self) == *old(self),
    {
        let i = match self.find_client(cid) {
            Some(i) => i,
            None => return false,
        };
        if !(self.unity_clients[i].client_busy && str_eq(
            self.unity_clients[i].current_request_id.as_str(),
            rid,
        )) {
            return false;
        }
        let mut c = self.unity_clients.remove(i);
        let ghost c0 = c;
        c.client_busy = false;
        c.current_request_id = String::new();
        c.current_method_name = String::new();
        let ghost c2 = c;
        self.unity_clients.insert(i, c);
        proof {
            let o = old(self).unity_clients@;
            assert(self.unity_clients@ == o.update(i as int, c2));
            lemma_keyed_map_update(o, i as int, c2);
            crate::server::registry::lemma_names_update(o, i as int, c2);
            assert(self.clients().dom() =~= old(self).clients().dom());
        }
        true
    }

    /// Checks that the client can take an
    /// execution for `controller` and, unless the execution runs beside others,
    /// gives `controller` the client's lock.
    pub fn prepare_client_for_execution(
        &mut self,
        cid: &str,
        controller: &ControllerIdentity,
        allow_busy: bool,
        allow_parallel: bool,
        sender_closed: bool,
        now: i64,
    ) -> (r: Result<Option<LockEvent>, RequestError>)
        requires
            old(self).wf(),
        ensures
            final(self).wf(),
            same_but_clients(*final(self), *old(self)),
            match r {
                Err(e) => prepare_error(*old(self), cid@, controller.id@, allow_busy, allow_parallel, sender_closed)
                    == Some((e.status, e.message@)) && *final(self) == *old(self),
                Ok(ev) => {
                    &&& prepare_error(*old(self), cid@, controller.id@, allow_busy, allow_parallel, sender_closed) is None
                    &&& takes_lock(old(self).clients()[cid@], controller.id@, allow_parallel) ==> final(self).clients()
                        == old(self).clients().insert(cid@, acquired(old(self).clients()[cid@], *controller, now))
                    &&& !takes_lock(old(self).clients()[cid@], controller.id@, allow_parallel) ==> *final(self)
                        == *old(self) && ev is None
                },
            },
    {
        let i = match self.find_client(cid) {
            Some(i) => i,
            None => {
                return Err(error(StatusCode::NotFound, concat3("Unity client ", cid, " is not online.")));
            },
        };
        if sender_closed {
            return Err(error(StatusCode::NotFound, concat3("Unity client ", cid, " is not online.")));
        }
        let c = &self.unity_clients[i];
        if !c.available {
            return Err(error(StatusCode::Conflict, concat3("Unity client ", cid, " is unavailable.")));
        }
        let (locked_by_other, locked_by_me) = match &c.lock {
            Some(l) => {
                let mine = str_eq(l.owner_id.as_str(), controller.id.as_str());
                (!mine, mine)
            },
            None => (false, false),
        };
        if locked_by_other && !allow_parallel {
            return Err(
                error(
                    StatusCode::Locked,
                    concat3("Unity client ", cid, " is locked by another controller."),
                ),
            );
        }
        if c.client_busy && !allow_parallel {
            let detail = if c.current_request_id.as_str().is_empty() {
                crate::text::copy_str("Unity client reports local busy.")
            } else {
                concat3(
                    "Unity client reports local busy with request ",
                    c.current_request_id.as_str(),
                    ".",
                )
            };
            let head = concat3("Unity client ", cid, " is already busy. ");
            let message = crate::text::concat2(head.as_str(), detail.as_str());
            return Err(error(StatusCode::Conflict, message));
        }
        if !allow_busy && !allow_parallel && self.is_client_running(cid, None) {
            return Err(
                error(
                    StatusCode::Conflict,
                    concat3("Unity client ", cid, " is already running a request."),
                ),
            );
        }
        if !allow_parallel || locked_by_me {
            let ev = self.acquire_client_lock(i, controller, now);
            Ok(ev)
        } else {
            Ok(None)
        }
    }
}

fn c2_id(c: &UnityClient) -> (r: String)
    ensures
        r == c.client_id,
{
    c.client_id.clone()
}

} // verus!
