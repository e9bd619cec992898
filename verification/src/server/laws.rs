use vstd::prelude::*;
use crate::json::JsonView;
use crate::keyed::lemma_keyed_map_dom;
use crate::server::clients::{is_name_rival, registered_name, spec_register, RegisterOutcome};
use crate::server::execution::{forbidden_message, stop_error};
use crate::server::locks::{acquired, lemma_running_ignores_locks, prepare_error};
use crate::server::registry::{
    history_after_add, history_index, lemma_history_index, lemma_history_index_absent,
    lemma_history_index_range, lemma_history_unique_update,
    same_but_clients,
};
use crate::server::state::{
    history_ids_unique, ControllerIdentity, RecordView, ServerState, StatusCode, HISTORY_LIMIT,
};

verus! {

/// Once a controller has prepared a client for an execution of its own (one
/// that does not run beside others) and so holds the client's lock, any other
/// controller that asks for that client is refused with `423 Locked`.
pub proof fn lemma_lock_excludes_other_controllers(
    before: ServerState,
    after: ServerState,
    cid: Seq<char>,
    owner: ControllerIdentity,
    now: i64,
    owner_allows_busy: bool,
    other: Seq<char>,
    other_allows_busy: bool,
)
    requires
        prepare_error(before, cid, owner.id@, owner_allows_busy, false, false) is None,
        after.clients() == before.clients().insert(cid, acquired(before.clients()[cid], owner, now)),
        other != owner.id@,
    ensures
        prepare_error(after, cid, other, other_allows_busy, false, false) == Some(
            (StatusCode::Locked, "Unity client "@ + cid + " is locked by another controller."@),
        ),
{
    assert(after.clients().dom().contains(cid));
    assert(after.clients()[cid] == acquired(before.clients()[cid], owner, now));
}

/// The controller that holds a client's lock is not refused by its own lock:
/// what it could ask before it took the lock, it can still ask after.
pub proof fn lemma_lock_owner_keeps_access(
    before: ServerState,
    after: ServerState,
    cid: Seq<char>,
    owner: ControllerIdentity,
    now: i64,
    allow_busy: bool,
)
    requires
        prepare_error(before, cid, owner.id@, allow_busy, false, false) is None,
        same_but_clients(after, before),
        after.clients() == before.clients().insert(cid, acquired(before.clients()[cid], owner, now)),
    ensures
        prepare_error(after, cid, owner.id@, allow_busy, false, false) is None,
{
    assert(after.clients().dom() =~= before.clients().dom());
    assert forall|k: Seq<char>| #[trigger] after.clients().dom().contains(k) implies after.clients()[k].client_busy
        == before.clients()[k].client_busy by {
        if k == cid {
            assert(after.clients()[k] == acquired(before.clients()[cid], owner, now));
        }
    }
    lemma_running_ignores_locks(after, before, cid, None);
    assert(after.clients()[cid] == acquired(before.clients()[cid], owner, now));
}

/// Only the controller that owns a running execution can stop it: any other
/// is refused with `403 Forbidden`, the owner is not refused.
pub proof fn lemma_only_owner_stops_execution(s: ServerState, rid: String, owner: Seq<char>, other: Seq<char>)
    requires
        rid@.len() > 0,
        s.pending().dom().contains(rid@),
        s.pending()[rid@].owner_id@ == owner,
        other != owner,
    ensures
        stop_error(s, Some(rid), None, other) == Some((StatusCode::Forbidden, forbidden_message())),
        stop_error(s, Some(rid), None, owner) is None,
{
}

/// Only the controller that started a request sequence can stop it: any other
/// is refused with `403 Forbidden`, the owner is not refused.
pub proof fn lemma_only_owner_stops_sequence(s: ServerState, sid: String, owner: Seq<char>, other: Seq<char>, rid: Option<String>)
    requires
        sid@.len() > 0,
        s.sequences().dom().contains(sid@),
        s.sequences()[sid@].owner_id@ == owner,
        other != owner,
    ensures
        stop_error(s, rid, Some(sid), other) == Some((StatusCode::Forbidden, forbidden_message())),
        stop_error(s, rid, Some(sid), owner) is None,
{
}

/// A record added to the history is what the history then gives back: it
/// takes the place of the record with the same request id, else it goes first
/// and the oldest records beyond `HISTORY_LIMIT` go; it is kept, found under
/// its request id when it has one, the history keeps at most `HISTORY_LIMIT`
/// records, and no request id occurs twice.
pub proof fn lemma_added_record_is_kept(h: Seq<RecordView>, item: RecordView)
    requires
        h.len() <= HISTORY_LIMIT,
        history_ids_unique(h),
    ensures
        forall|i: int|
            0 <= i < h.len() && item.request_id.len() > 0 && (#[trigger] h[i]).request_id == item.request_id
                ==> history_after_add(h, item) == h.update(i, item),
        (item.request_id.len() == 0 || forall|i: int| 0 <= i < h.len() ==> (#[trigger] h[i]).request_id
            != item.request_id) ==> history_after_add(h, item) == (seq![item] + h).take(
            if h.len() + 1 > HISTORY_LIMIT {
                HISTORY_LIMIT as int
            } else {
                h.len() + 1int
            },
        ),
        history_after_add(h, item).len() <= HISTORY_LIMIT,
        history_after_add(h, item).contains(item),
        history_ids_unique(history_after_add(h, item)),
        item.request_id.len() > 0 ==> {
            let r = history_after_add(h, item);
            &&& 0 <= history_index(r, item.request_id) < r.len()
            &&& r[history_index(r, item.request_id)] == item
        },
{
    let rid = item.request_id;
    let r = history_after_add(h, item);
    lemma_history_index_range(h, rid);
    assert forall|i: int|
        0 <= i < h.len() && rid.len() > 0 && (#[trigger] h[i]).request_id == rid implies r == h.update(i, item) by {
        assert forall|j: int| 0 <= j < i implies (#[trigger] h[j]).request_id != rid by {
            if h[j].request_id.len() > 0 {
                assert(h[j].request_id != h[i].request_id);
            }
        }
        lemma_history_index(h, rid, i);
    }
    if rid.len() == 0 || forall|i: int| 0 <= i < h.len() ==> (#[trigger] h[i]).request_id != rid {
        if rid.len() > 0 {
            lemma_history_index(h, rid, h.len() as int);
        }
        let g = seq![item] + h;
        if g.len() <= HISTORY_LIMIT {
            assert(g.take(g.len() as int) =~= g);
        }
    }
    if rid.len() > 0 && history_index(h, rid) >= 0 {
        let i = history_index(h, rid);
        assert(r[i] == item);
        assert forall|j: int| 0 <= j < i implies (#[trigger] r[j]).request_id != rid by {
            assert(r[j] == h[j]);
            assert(h[i].request_id == rid);
        }
        lemma_history_index(r, rid, i);
        lemma_history_unique_update(h, i, item);
    } else {
        let g = seq![item] + h;
        assert forall|a: int, b: int|
            0 <= a < b < g.len() && (#[trigger] g[a]).request_id.len() > 0 implies g[a].request_id
            != (#[trigger] g[b]).request_id by {
            if a == 0 {
                assert(g[b] == h[b - 1]);
                lemma_history_index_absent(h, rid, b - 1);
            } else {
                assert(g[a] == h[a - 1] && g[b] == h[b - 1]);
            }
        }
        if g.len() > HISTORY_LIMIT {
            assert forall|a: int, b: int|
                0 <= a < b < r.len() && (#[trigger] r[a]).request_id.len() > 0 implies r[a].request_id
                != (#[trigger] r[b]).request_id by {
                assert(r[a] == g[a] && r[b] == g[b]);
            }
        }
        assert(r[0] == item);
        lemma_history_index(r, rid, 0);
    }
}

/// A name that a registered client holds is taken: a later registration of
/// another client under the same name is refused and changes nothing, and
/// no two registered clients ever share a name.
pub proof fn lemma_registered_name_is_taken(
    s1: ServerState,
    s2: ServerState,
    r1: RegisterOutcome,
    cid1: Seq<char>,
    payload1: JsonView,
    connection1: Seq<char>,
    remote1: Seq<char>,
    now1: i64,
    s3: ServerState,
    r2: RegisterOutcome,
    cid2: Seq<char>,
    payload2: JsonView,
    connection2: Seq<char>,
    remote2: Seq<char>,
    now2: i64,
)
    requires
        spec_register(s1, s2, r1, cid1, payload1, connection1, remote1, now1),
        r1 is Registered,
        spec_register(s2, s3, r2, cid2, payload2, connection2, remote2, now2),
        cid2 != cid1,
        registered_name(payload2, cid2) == registered_name(payload1, cid1),
    ensures
        r2 is Rejected,
        s3 == s2,
        s2.wf(),
{
    assert(s2.clients().dom().contains(cid1));
    lemma_keyed_map_dom(s2.unity_clients@, cid1);
    let i = choose|i: int| 0 <= i < s2.unity_clients@.len() && #[trigger] s2.unity_clients@[i].client_id@ == cid1;
    crate::keyed::lemma_keyed_map_at(s2.unity_clients@, i);
    assert(is_name_rival(s2.unity_clients@[i], cid2, connection2, registered_name(payload2, cid2)));
}

} // verus!
