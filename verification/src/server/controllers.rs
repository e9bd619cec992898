use vstd::prelude::*;
use vstd::string::StrSliceExecFns;
use crate::keyed::{
    find_keyed, has_key, keyed_map, keys_distinct, lemma_keyed_map_at, lemma_keyed_map_dom,
    lemma_keyed_map_push, lemma_keyed_map_remove, lemma_keyed_map_update, Keyed,
};
use crate::server::locks::released_for_owner;
use crate::server::registry::LockEvent;
use crate::server::state::{Controller, ControllerIdentity, ServerState, WebClient};
use crate::text::{copy_str, str_eq, trim, trim_string};

verus! {

/// Puts `x` in the place of the item with its key, or adds it.
pub fn put_keyed<T: Keyed>(v: &mut Vec<T>, x: T)
    requires
        keys_distinct(old(v)@),
    ensures
        keys_distinct(final(v)@),
        keyed_map(final(v)@) == keyed_map(old(v)@).insert(x.key(), x),
{
    let ghost xv = x;
    match find_keyed(v, x.key_str()) {
        Some(i) => {
            let _prev = v.remove(i);
            v.insert(i, x);
            proof {
                let o = old(v)@;
                assert(v@ == o.update(i as int, xv));
                lemma_keyed_map_update(o, i as int, xv);
            }
        },
        None => {
            v.push(x);
            proof {
                lemma_keyed_map_push(old(v)@, xv);
            }
        },
    }
}

/// The sockets that a controller holds, as a set.
pub open spec fn socket_set(c: Controller) -> Set<Seq<char>> {
    Set::new(|k: Seq<char>| exists|i: int| 0 <= i < c.sockets@.len() && #[trigger] c.sockets@[i]@ == k)
}

/// The id a socket's controller goes by: the one it asks for, trimmed, when
/// that is not blank; else a fresh one.
pub open spec fn controller_id_for(requested: Option<Seq<char>>, fresh: Seq<char>) -> Seq<char> {
    match requested {
        Some(r) if trim(r).len() > 0 => trim(r),
        _ => fresh,
    }
}

/// The controller type a socket names (`controllerType`, or else
/// `controller`), trimmed; `web` where it is missing or blank.
pub open spec fn controller_type_for(controller_type: Option<Seq<char>>, controller: Option<Seq<char>>) -> Seq<char> {
    let named = match controller_type {
        Some(t) => Some(t),
        None => controller,
    };
    match named {
        Some(t) if trim(t).len() > 0 => trim(t),
        _ => "web"@,
    }
}

pub open spec fn opt_ref_view(o: Option<&str>) -> Option<Seq<char>> {
    match o {
        Some(s) => Some(s@),
        None => None,
    }
}

/// Everything but the controllers and the web sockets is as it was.
pub open spec fn same_but_controllers(a: ServerState, b: ServerState) -> bool {
    &&& a.unity_clients == b.unity_clients
    &&& a.execution_history == b.execution_history
    &&& a.pending_executions == b.pending_executions
    &&& a.active_sequences == b.active_sequences
}

/// What the controller `id` looks like after socket `socket_id` joins it at
/// `now` with type `ctype`.
pub open spec fn is_attached(c: Controller, old: ServerState, id: Seq<char>, ctype: Seq<char>, socket_id: Seq<char>, now: i64) -> bool {
    &&& c.id@ == id
    &&& c.controller_type@ == ctype
    &&& c.last_seen_at == now
    &&& if old.ctrls().dom().contains(id) {
        &&& socket_set(c) == socket_set(old.ctrls()[id]).insert(socket_id)
        &&& c.last_disconnected_at == old.ctrls()[id].last_disconnected_at
    } else {
        &&& socket_set(c) == Set::<Seq<char>>::empty().insert(socket_id)
        &&& c.last_disconnected_at is None
    }
}

fn sockets_with(sockets: Vec<String>, socket_id: &str) -> (r: Vec<String>)
    ensures
        Set::new(|k: Seq<char>| exists|i: int| 0 <= i < r@.len() && #[trigger] r@[i]@ == k) == Set::new(
            |k: Seq<char>| exists|i: int| 0 <= i < sockets@.len() && #[trigger] sockets@[i]@ == k,
        ).insert(socket_id@),
{
    let mut i: usize = 0;
    while i < sockets.len()
        invariant
            i <= sockets@.len(),
            forall|j: int| 0 <= j < i ==> (#[trigger] sockets@[j])@ != socket_id@,
        decreases sockets@.len() - i,
    {
        if str_eq(sockets[i].as_str(), socket_id) {
            let ghost k = i;
            proof {
                let a = Set::new(|k: Seq<char>| exists|i: int| 0 <= i < sockets@.len() && #[trigger] sockets@[i]@ == k);
                assert(a.contains(socket_id@)) by {
                    assert(sockets@[k as int]@ == socket_id@);
                }
                assert(a.insert(socket_id@) =~= a);
            }
            return sockets;
        }
        i = i + 1;
    }
    let mut r = sockets;
    let ghost before = r@;
    r.push(copy_str(socket_id));
    proof {
        let a = Set::new(|k: Seq<char>| exists|i: int| 0 <= i < before.len() && #[trigger] before[i]@ == k);
        let b = Set::new(|k: Seq<char>| exists|i: int| 0 <= i < r@.len() && #[trigger] r@[i]@ == k);
        assert forall|k: Seq<char>| b.contains(k) <==> a.insert(socket_id@).contains(k) by {
            if b.contains(k) {
                let i = choose|i: int| 0 <= i < r@.len() && #[trigger] r@[i]@ == k;
                if i < before.len() {
                    assert(before[i] == r@[i]);
                }
            }
            if a.contains(k) {
                let i = choose|i: int| 0 <= i < before.len() && #[trigger] before[i]@ == k;
                assert(r@[i] == before[i]);
            }
            if k == socket_id@ {
                assert(r@[before.len() as int]@ == k);
            }
        }
        assert(b =~= a.insert(socket_id@));
    }
    r
}

impl ServerState {
    /// A web socket joins its controller: `controller_id`, `controller_type`
    /// and `controller` are what the socket's query names, and `fresh_id` is
    /// the id taken when it names none.
    pub fn attach_controller_as(
        &mut self,
        socket_id: &str,
        controller_id: Option<&str>,
        controller_type: Option<&str>,
        controller: Option<&str>,
        fresh_id: String,
        now: i64,
    ) -> (r: ControllerIdentity)
        requires
            old(self).wf(),
        ensures
            final(self).wf(),
            same_but_controllers(*final(self), *old(self)),
            r.id@ == controller_id_for(opt_ref_view(controller_id), fresh_id@),
            r.controller_type@ == controller_type_for(opt_ref_view(controller_type), opt_ref_view(controller)),
            final(self).ctrls().dom() == old(self).ctrls().dom().insert(r.id@),
            forall|k: Seq<char>|
                k != r.id@ && #[trigger] old(self).ctrls().dom().contains(k) ==> final(self).ctrls()[k]
                    == old(self).ctrls()[k],
            is_attached(final(self).ctrls()[r.id@], *old(self), r.id@, r.controller_type@, socket_id@, now),
            final(self).webs() == old(self).webs().insert(socket_id@, final(self).webs()[socket_id@]),
            final(self).webs()[socket_id@].controller_id@ == r.id@,
            final(self).webs()[socket_id@].is_alive,
    {
        let id = match controller_id {
            Some(r) => {
                let t = trim_string(r);
                if t.as_str().unicode_len() > 0 {
                    t
                } else {
                    fresh_id
                }
            },
            None => fresh_id,
        };
        let named = match controller_type {
            Some(t) => Some(t),
            None => controller,
        };
        let ctype = match named {
            Some(t) => {
                let tt = trim_string(t);
                if tt.as_str().unicode_len() > 0 {
                    tt
                } else {
                    copy_str("web")
                }
            },
            None => copy_str("web"),
        };
        let ghost s0 = *self;
        let updated = match find_keyed(&self.controllers, id.as_str()) {
            Some(i) => {
                let c = self.controllers.remove(i);
                proof {
                    lemma_keyed_map_remove(s0.controllers@, i as int);
                }
                let ghost cold = c;
                let sockets = sockets_with(c.sockets, socket_id);
                Controller {
                    id: c.id,
                    controller_type: ctype.clone(),
                    sockets,
                    last_seen_at: now,
                    last_disconnected_at: c.last_disconnected_at,
                }
            },
            None => {
                let mut sockets: Vec<String> = Vec::new();
                sockets.push(copy_str(socket_id));
                proof {
                    let b = Set::new(|k: Seq<char>| exists|i: int| 0 <= i < sockets@.len() && #[trigger] sockets@[i]@ == k);
                    assert forall|k: Seq<char>| b.contains(k) <==> Set::<Seq<char>>::empty().insert(socket_id@).contains(k) by {
                        if k == socket_id@ {
                            assert(sockets@[0]@ == k);
                        }
                    }
                    assert(b =~= Set::<Seq<char>>::empty().insert(socket_id@));
                }
                Controller {
                    id: id.clone(),
                    controller_type: ctype.clone(),
                    sockets,
                    last_seen_at: now,
                    last_disconnected_at: None,
                }
            },
        };
        let ghost cu = updated;
        assert(is_attached(cu, s0, id@, ctype@, socket_id@, now));
        put_keyed(&mut self.controllers, updated);
        proof {
            assert(keyed_map(self.controllers@) == s0.ctrls().insert(id@, cu)) by {
                if s0.ctrls().dom().contains(id@) {
                    assert(s0.ctrls().remove(id@).insert(id@, cu) =~= s0.ctrls().insert(id@, cu));
                }
            }
        }
        let web = WebClient { socket_id: copy_str(socket_id), controller_id: id.clone(), is_alive: true };
        let ghost wv = web;
        put_keyed(&mut self.web_clients, web);
        proof {
            assert(self.webs()[socket_id@] == wv);
            assert(self.webs().insert(socket_id@, wv) =~= self.webs());
        }
        ControllerIdentity { id, controller_type: ctype }
    }
}

/// A controller's sockets without `socket_id`.
#[verifier::rlimit(40)]
#[verifier::spinoff_prover]
fn sockets_without(sockets: Vec<String>, socket_id: &str) -> (r: Vec<String>)
    ensures
        Set::new(|k: Seq<char>| exists|i: int| 0 <= i < r@.len() && #[trigger] r@[i]@ == k) == Set::new(
            |k: Seq<char>| exists|i: int| 0 <= i < sockets@.len() && #[trigger] sockets@[i]@ == k,
        ).remove(socket_id@),
{
    let ghost a = Set::new(|k: Seq<char>| exists|i: int| 0 <= i < sockets@.len() && #[trigger] sockets@[i]@ == k);
    let mut r: Vec<String> = Vec::new();
    let mut i: usize = 0;
    while i < sockets.len()
        invariant
            i <= sockets@.len(),
            forall|j: int| 0 <= j < r@.len() ==> (#[trigger] r@[j])@ != socket_id@ && exists|m: int|
                0 <= m < i && sockets@[m]@ == r@[j]@,
            forall|m: int|
                0 <= m < i && (#[trigger] sockets@[m])@ != socket_id@ ==> exists|j: int|
                    0 <= j < r@.len() && r@[j]@ == sockets@[m]@,
        decreases sockets@.len() - i,
    {
        if !str_eq(sockets[i].as_str(), socket_id) {
            let ghost before = r@;
            r.push(sockets[i].clone());
            proof {
                assert forall|j: int| 0 <= j < r@.len() implies (#[trigger] r@[j])@ != socket_id@ && exists|m: int|
                    0 <= m < i + 1 && sockets@[m]@ == r@[j]@ by {
                    if j < before.len() {
                        assert(r@[j] == before[j]);
                    } else {
                        assert(sockets@[i as int]@ == r@[j]@);
                    }
                }
                assert forall|m: int| 0 <= m < i + 1 && (#[trigger] sockets@[m])@ != socket_id@ implies exists|j: int|
                    0 <= j < r@.len() && r@[j]@ == sockets@[m]@ by {
                    if m < i {
                        let j = choose|j: int| 0 <= j < before.len() && before[j]@ == sockets@[m]@;
                        assert(r@[j] == before[j]);
                    } else {
                        assert(r@[before.len() as int]@ == sockets@[m]@);
                    }
                }
            }
        }
        i = i + 1;
    }
    proof {
        let b = Set::new(|k: Seq<char>| exists|i: int| 0 <= i < r@.len() && #[trigger] r@[i]@ == k);
        assert forall|k: Seq<char>| b.contains(k) <==> a.remove(socket_id@).contains(k) by {
            if b.contains(k) {
                let j = choose|j: int| 0 <= j < r@.len() && #[trigger] r@[j]@ == k;
                let m = choose|m: int| 0 <= m < sockets@.len() && sockets@[m]@ == r@[j]@;
                assert(sockets@[m]@ == k);
            }
            if a.contains(k) && k != socket_id@ {
                let m = choose|m: int| 0 <= m < sockets@.len() && #[trigger] sockets@[m]@ == k;
                let j = choose|j: int| 0 <= j < r@.len() && r@[j]@ == sockets@[m]@;
                assert(r@[j]@ == k);
            }
        }
        assert(b =~= a.remove(socket_id@));
    }
    r
}

/// What a closed web socket did.
#[derive(Debug)]
pub struct Detached {
    pub controller_id: String,
    /// The locks that went because the controller has no socket left.
    pub released: Vec<LockEvent>,
}

impl ServerState {
    /// A web socket joins its controller, under a fresh random id when the
    /// socket names none.
    pub fn attach_controller(
        &mut self,
        socket_id: &str,
        controller_id: Option<&str>,
        controller_type: Option<&str>,
        controller: Option<&str>,
        now: i64,
    ) -> (r: ControllerIdentity)
        requires
            old(self).wf(),
        ensures
            final(self).wf(),
            same_but_controllers(*final(self), *old(self)),
            exists|fresh: Seq<char>| r.id@ == controller_id_for(opt_ref_view(controller_id), fresh),
            r.controller_type@ == controller_type_for(opt_ref_view(controller_type), opt_ref_view(controller)),
            final(self).ctrls().dom() == old(self).ctrls().dom().insert(r.id@),
            forall|k: Seq<char>|
                k != r.id@ && #[trigger] old(self).ctrls().dom().contains(k) ==> final(self).ctrls()[k]
                    == old(self).ctrls()[k],
            is_attached(final(self).ctrls()[r.id@], *old(self), r.id@, r.controller_type@, socket_id@, now),
            final(self).webs() == old(self).webs().insert(socket_id@, final(self).webs()[socket_id@]),
            final(self).webs()[socket_id@].controller_id@ == r.id@,
            final(self).webs()[socket_id@].is_alive,
    {
        let fresh = crate::server::util::uuid();
        let ghost f = fresh@;
        let r = self.attach_controller_as(socket_id, controller_id, controller_type, controller, fresh, now);
        assert(r.id@ == controller_id_for(opt_ref_view(controller_id), f));
        r
    }

    /// A message from a controller: notes when it was last seen.
    pub fn touch_controller(&mut self, controller_id: &str, now: i64)
        requires
            old(self).wf(),
        ensures
            final(self).wf(),
            same_but_controllers(*final(self), *old(self)),
            final(self).web_clients == old(self).web_clients,
            old(self).ctrls().dom().contains(controller_id@) ==> final(self).ctrls() == old(self).ctrls().insert(
                controller_id@,
                Controller { last_seen_at: now, ..old(self).ctrls()[controller_id@] },
            ),
            !old(self).ctrls().dom().contains(controller_id@) ==> *final(self) == *old(self),
    {
        if let Some(i) = find_keyed(&self.controllers, controller_id) {
            let mut c = self.controllers.remove(i);
            c.last_seen_at = now;
            let ghost cv = c;
            self.controllers.insert(i, c);
            proof {
                let o = old(self).controllers@;
                assert(self.controllers@ == o.update(i as int, cv));
                lemma_keyed_map_update(o, i as int, cv);
            }
        }
    }

    /// Notes that web socket `socket_id` answered.
    pub fn mark_web_socket_alive(&mut self, socket_id: &str)
        requires
            old(self).wf(),
        ensures
            final(self).wf(),
            same_but_controllers(*final(self), *old(self)),
            final(self).controllers == old(self).controllers,
            old(self).webs().dom().contains(socket_id@) ==> final(self).webs() == old(self).webs().insert(
                socket_id@,
                WebClient { is_alive: true, ..old(self).webs()[socket_id@] },
            ),
            !old(self).webs().dom().contains(socket_id@) ==> *final(self) == *old(self),
    {
        if let Some(i) = find_keyed(&self.web_clients, socket_id) {
            let mut w = self.web_clients.remove(i);
            w.is_alive = true;
            let ghost wv = w;
            self.web_clients.insert(i, w);
            proof {
                let o = old(self).web_clients@;
                assert(self.web_clients@ == o.update(i as int, wv));
                lemma_keyed_map_update(o, i as int, wv);
            }
        }
    }

    /// A web socket closed at `now`: it leaves its controller, and a controller
    /// left without sockets loses every lock that guards nothing running.
    pub fn detach_web_socket(&mut self, socket_id: &str, now: i64) -> (r: Option<Detached>)
        requires
            old(self).wf(),
        ensures
            final(self).wf(),
            !old(self).webs().dom().contains(socket_id@) ==> r is None && *final(self) == *old(self),
            old(self).webs().dom().contains(socket_id@) ==> {
                let owner = old(self).webs()[socket_id@].controller_id@;
                &&& r is Some
                &&& r->0.controller_id@ == owner
                &&& final(self).webs() == old(self).webs().remove(socket_id@)
                &&& final(self).execution_history == old(self).execution_history
                &&& final(self).pending_executions == old(self).pending_executions
                &&& final(self).active_sequences == old(self).active_sequences
                &&& if old(self).ctrls().dom().contains(owner) {
                    let c = old(self).ctrls()[owner];
                    let left = socket_set(c).remove(socket_id@);
                    &&& final(self).ctrls().dom() == old(self).ctrls().dom()
                    &&& final(self).ctrls() == old(self).ctrls().insert(owner, final(self).ctrls()[owner])
                    &&& final(self).ctrls()[owner].id == c.id
                    &&& final(self).ctrls()[owner].controller_type == c.controller_type
                    &&& final(self).ctrls()[owner].last_seen_at == c.last_seen_at
                    &&& final(self).ctrls()[owner].last_disconnected_at == Some(now)
                    &&& socket_set(final(self).ctrls()[owner]) == left
                    &&& if left.is_empty() {
                        final(self).unity_clients@ == released_for_owner(*old(self), owner)
                    } else {
                        final(self).unity_clients == old(self).unity_clients && r->0.released@.len() == 0
                    }
                } else {
                    &&& final(self).controllers == old(self).controllers
                    &&& final(self).unity_clients == old(self).unity_clients
                    &&& r->0.released@.len() == 0
                }
            },
    {
        let i = match find_keyed(&self.web_clients, socket_id) {
            Some(i) => i,
            None => return None,
        };
        let web = self.web_clients.remove(i);
        proof {
            lemma_keyed_map_remove(old(self).web_clients@, i as int);
        }
        let owner = web.controller_id;
        let ghost s1 = *self;
        let mut empty = false;
        if let Some(j) = find_keyed(&self.controllers, owner.as_str()) {
            let c = self.controllers.remove(j);
            let ghost cold = c;
            let sockets = sockets_without(c.sockets, socket_id);
            empty = sockets.len() == 0;
            let nc = Controller {
                id: c.id,
                controller_type: c.controller_type,
                sockets,
                last_seen_at: c.last_seen_at,
                last_disconnected_at: Some(now),
            };
            let ghost ncv = nc;
            self.controllers.insert(j, nc);
            proof {
                let o = s1.controllers@;
                assert(self.controllers@ == o.update(j as int, ncv));
                lemma_keyed_map_update(o, j as int, ncv);
                assert(self.ctrls().dom() =~= old(self).ctrls().dom());
                if empty {
                    assert(socket_set(ncv) =~= Set::<Seq<char>>::empty());
                } else {
                    assert(socket_set(ncv).contains(ncv.sockets@[0]@));
                }
            }
        }
        let ghost s2 = *self;
        let released = if empty {
            self.release_idle_locks_for_controller(owner.as_str())
        } else {
            Vec::new()
        };
        proof {
            if empty {
                assert(released_for_owner(s2, owner@) =~= released_for_owner(*old(self), owner@)) by {
                    assert(s2.clients() == old(self).clients());
                    assert(s2.pending() == old(self).pending());
                    assert(s2.sequences() == old(self).sequences());
                    assert forall|j: int| 0 <= j < s2.unity_clients@.len() implies
                        #[trigger] released_for_owner(s2, owner@)[j] == released_for_owner(*old(self), owner@)[j] by {
                        let c = s2.unity_clients@[j];
                        assert(crate::server::locks::released_on_leave(s2, c, owner@)
                            == crate::server::locks::released_on_leave(*old(self), c, owner@));
                    }
                }
            }
        }
        Some(Detached { controller_id: owner, released })
    }
}

/// A controller for one request that comes without a socket: its id is the
/// type, a colon and a fresh random id.
pub fn create_transient_controller(controller_type: &str) -> (r: ControllerIdentity)
    ensures
        r.controller_type@ == controller_type@,
        r.id@.len() == controller_type@.len() + 37,
        r.id@.subrange(0, controller_type@.len() + 1int) == controller_type@ + ":"@,
{
    let fresh = crate::server::util::uuid();
    let id = crate::text::concat3(controller_type, ":", fresh.as_str());
    proof {
        reveal_strlit(":");
        assert(id@.subrange(0, controller_type@.len() + 1int) =~= controller_type@ + ":"@);
    }
    ControllerIdentity { id, controller_type: copy_str(controller_type) }
}

} // verus!
