use vstd::prelude::*;
use crate::config::SessionConfig;
use crate::session::{key_for, session_key, Session, SessionView};
use crate::store::{EntryView, ExpiringStore};
use crate::strutil;
use crate::strutil::is_prefix_of;

verus! {

/// The view of an optional record: its view, if it is there.
pub open spec fn opt_session_view(o: Option<Session>) -> Option<SessionView> {
    match o {
        Some(s) => Some(s@),
        None => None,
    }
}

/// The key prefix under which sessions are stored.
pub open spec fn session_prefix() -> Seq<char> {
    "session:"@
}

/// What a fetch of `session_id` at instant `now` returns out of store
/// contents `m`: the stored record, unless it is absent or expired.
pub open spec fn spec_get_result(
    m: Map<Seq<char>, EntryView>,
    session_id: Seq<char>,
    now: int,
) -> Option<SessionView> {
    let k = session_key(session_id);
    if m.contains_key(k) && now <= m[k].record.expires_at {
        Some(m[k].record)
    } else {
        None
    }
}

/// What the store holds after a fetch of `session_id` at instant `now`:
/// unchanged, except that a record found expired is deleted on the spot.
pub open spec fn spec_get_store(
    m: Map<Seq<char>, EntryView>,
    session_id: Seq<char>,
    now: int,
) -> Map<Seq<char>, EntryView> {
    let k = session_key(session_id);
    if m.contains_key(k) && now > m[k].record.expires_at {
        m.remove(k)
    } else {
        m
    }
}

/// The record a refresh at instant `now` writes back: the prior record
/// with only the expiry recomputed from now.
pub open spec fn refreshed_record(prior: SessionView, now: int, lifetime_seconds: int) -> SessionView {
    SessionView { expires_at: now + lifetime_seconds, ..prior }
}

/// An entry the sweep for `user_id` removes: a session entry owned by
/// that user whose record is expired at instant `now`.
pub open spec fn swept(k: Seq<char>, e: EntryView, user_id: Seq<char>, now: int) -> bool {
    is_prefix_of(session_prefix(), k) && e.record.user_id == user_id && now > e.record.expires_at
}

/// The store contents after a sweep for `user_id` at instant `now`.
pub open spec fn after_sweep(
    m: Map<Seq<char>, EntryView>,
    user_id: Seq<char>,
    now: int,
) -> Map<Seq<char>, EntryView> {
    Map::new(
        |k: Seq<char>| m.contains_key(k) && !swept(k, m[k], user_id, now),
        |k: Seq<char>| m[k],
    )
}

/// The create / fetch / refresh / revoke / sweep operations over the
/// expiring store, enforcing the TTL and the expiry-on-read policy. The
/// store is the single source of truth: a session that is not present
/// there does not exist.
pub struct SessionService;

impl SessionService {
    /// Creates a fresh session for the owner: a newly generated token, a
    /// lifetime taken from the configuration, one store write with a TTL
    /// equal to that lifetime in seconds.
    pub fn create_session(
        store: &mut ExpiringStore,
        config: &SessionConfig,
        user_id: String,
        user_agent: Option<String>,
        ip_address: Option<String>,
        now: i64,
    ) -> (r: Session)
        requires
            old(store).wf(),
            config.wf(),
            now as int + config.lifetime_seconds() <= i64::MAX as int,
        ensures
            final(store).wf(),
            r@.session_id.len() == 36,
            r@.user_id == user_id@,
            r@.created_at == now as int,
            r@.expires_at == now as int + config.lifetime_seconds(),
            r@.created_at < r@.expires_at,
            r@.user_agent == crate::session::opt_str_view(user_agent),
            r@.ip_address == crate::session::opt_str_view(ip_address),
            final(store)@ == old(store)@.insert(
                session_key(r@.session_id),
                EntryView {
                    record: r@,
                    store_expires_at: now as int + config.lifetime_seconds(),
                },
            ),
    {
        let session = Session::new(user_id, config.auth_session_expire_time, now)
            .with_client_info(user_agent, ip_address);
        let ttl_seconds: u64 = (config.auth_session_expire_time * 60) as u64;
        let key = session.redis_key();
        store.set_with_ttl(key, session.clone(), ttl_seconds, now);
        session
    }

    /// Fetches a session by its token. An absent session yields nothing;
    /// a present but expired one is deleted on the spot and yields
    /// nothing — lazy expiry: a logically dead session is never handed to
    /// a caller, even inside the store's physical TTL grace window.
    pub fn get_session(store: &mut ExpiringStore, session_id: &str, now: i64) -> (r: Option<
        Session,
    >)
        requires
            old(store).wf(),
        ensures
            final(store).wf(),
            opt_session_view(r) == spec_get_result(old(store)@, session_id@, now as int),
            final(store)@ == spec_get_store(old(store)@, session_id@, now as int),
    {
        let key = key_for(session_id);
        let mut expired = false;
        let mut result: Option<Session> = None;
        match store.get(&key) {
            Some(rec) => {
                if rec.is_expired(now) {
                    expired = true;
                } else {
                    result = Some(rec.clone());
                }
            },
            None => {},
        }
        if expired {
            store.delete(&key);
        }
        result
    }

    /// Deletes a session unconditionally. Revocation is idempotent:
    /// deleting an absent token is not an error and changes nothing.
    pub fn delete_session(store: &mut ExpiringStore, session_id: &str)
        requires
            old(store).wf(),
        ensures
            final(store).wf(),
            final(store)@ == old(store)@.remove(session_key(session_id@)),
    {
        let key = key_for(session_id);
        store.delete(&key);
    }

    /// Refreshes a session: if it is present and live, its expiry is
    /// recomputed from now and the full record is rewritten with a fresh
    /// TTL. An absent or expired session yields nothing and is never
    /// resurrected.
    pub fn refresh_session(
        store: &mut ExpiringStore,
        config: &SessionConfig,
        session_id: &str,
        now: i64,
    ) -> (r: Option<Session>)
        requires
            old(store).wf(),
            config.wf(),
            now as int + config.lifetime_seconds() <= i64::MAX as int,
        ensures
            final(store).wf(),
            spec_get_result(old(store)@, session_id@, now as int) is None ==> r is None
                && final(store)@ == spec_get_store(old(store)@, session_id@, now as int),
            (match spec_get_result(old(store)@, session_id@, now as int) {
                Some(prior) => {
                    let updated = refreshed_record(prior, now as int, config.lifetime_seconds());
                    &&& r matches Some(s) && s@ == updated
                    &&& final(store)@ == old(store)@.insert(
                        session_key(prior.session_id),
                        EntryView {
                            record: updated,
                            store_expires_at: now as int + config.lifetime_seconds(),
                        },
                    )
                },
                None => true,
            }),
    {
        match Self::get_session(store, session_id, now) {
            Some(session) => {
                let mut session = session;
                session.expires_at = now + config.auth_session_expire_time * 60;
                let ttl_seconds: u64 = (config.auth_session_expire_time * 60) as u64;
                let key = session.redis_key();
                store.set_with_ttl(key, session.clone(), ttl_seconds, now);
                Some(session)
            },
            None => None,
        }
    }

    /// Sweeps the store: deletes every session entry owned by `user_id`
    /// that is expired at instant `now`, and touches nothing else. A
    /// best-effort maintenance scan over all session keys, meant for a
    /// low-frequency background task, never for the request hot path.
    pub fn cleanup_expired_sessions(store: &mut ExpiringStore, user_id: &str, now: i64)
        requires
            old(store).wf(),
        ensures
            final(store).wf(),
            final(store)@ == after_sweep(old(store)@, user_id@, now as int),
    {
        let ghost m0 = store@;
        let prefix: String = "session:".to_owned();
        let keys = store.keys_matching(&prefix);
        let mut idx: usize = 0;
        while idx < keys.len()
            invariant
                store.wf(),
                idx <= keys@.len(),
                prefix@ == session_prefix(),
                frame_of(store@, m0),
                keeps_unswept(store@, m0, user_id@, now as int),
                processed(store@, m0, keys@, idx as int, user_id@, now as int),
                lists_keys(keys@, m0, prefix@),
            decreases keys@.len() - idx,
        {
            let ghost pre = store@;
            let key = &keys[idx];
            let ghost kv = key@;
            let mut kill = false;
            match store.get(key) {
                Some(rec) => {
                    if strutil::str_eq(rec.user_id.as_str(), user_id) {
                        if rec.is_expired(now) {
                            kill = true;
                        }
                    }
                },
                None => {},
            }
            if kill {
                store.delete(key);
            }
            proof {
                assert(keys@[idx as int]@ == kv);
                if kill {
                    assert(pre.contains_key(kv) && pre[kv] == m0[kv]);
                    assert(swept(kv, m0[kv], user_id@, now as int));
                    assert(store@ == pre.remove(kv));
                }
                assert(frame_of(store@, m0)) by {
                    assert forall|k: Seq<char>| #[trigger] store@.contains_key(k) implies
                        m0.contains_key(k) && store@[k] == m0[k] by {
                        assert(frame_of(pre, m0));
                        assert(pre.contains_key(k));
                    }
                }
                assert(keeps_unswept(store@, m0, user_id@, now as int)) by {
                    assert forall|k: Seq<char>| m0.contains_key(k)
                        && !swept(k, m0[k], user_id@, now as int) implies
                        #[trigger] store@.contains_key(k) by {
                        assert(keeps_unswept(pre, m0, user_id@, now as int));
                        assert(pre.contains_key(k));
                        if kill {
                            assert(k != kv);
                        }
                    }
                }
                assert(processed(store@, m0, keys@, idx as int + 1, user_id@, now as int)) by {
                    assert forall|j: int| 0 <= j < idx as int + 1 implies !(swept(
                        keys@[j]@,
                        m0[#[trigger] keys@[j]@],
                        user_id@,
                        now as int,
                    ) && store@.contains_key(keys@[j]@)) by {
                        assert(processed(pre, m0, keys@, idx as int, user_id@, now as int));
                        if j == idx as int && !kill && store@.contains_key(kv) {
                            assert(pre[kv] == m0[kv]);
                        }
                    }
                }
            }
            idx += 1;
        }
        proof {
            assert forall|k: Seq<char>| store@.contains_key(k) implies
                m0.contains_key(k) && !swept(k, m0[k], user_id@, now as int)
                && store@[k] == m0[k] by {
                assert(frame_of(store@, m0));
                assert(m0.contains_key(k) && store@[k] == m0[k]);
                if swept(k, m0[k], user_id@, now as int) {
                    let j = choose|j: int| 0 <= j < keys@.len() && #[trigger] keys@[j]@ == k;
                    assert(!(swept(keys@[j]@, m0[keys@[j]@], user_id@, now as int)
                        && store@.contains_key(keys@[j]@)));
                }
            }
            assert forall|k: Seq<char>| m0.contains_key(k)
                && !swept(k, m0[k], user_id@, now as int) implies
                #[trigger] store@.contains_key(k) by {
                assert(keeps_unswept(store@, m0, user_id@, now as int));
            }
            assert(store@ =~= after_sweep(m0, user_id@, now as int));
        }
    }
}

/// Nothing appears in the store out of thin air: every current entry was
/// already there, unchanged.
spec fn frame_of(cur: Map<Seq<char>, EntryView>, m0: Map<Seq<char>, EntryView>) -> bool {
    forall|k: Seq<char>| #[trigger] cur.contains_key(k) ==> m0.contains_key(k) && cur[k] == m0[k]
}

/// The part of the store a sweep never touches is still there: every
/// entry that is not a swept one survives.
spec fn keeps_unswept(
    cur: Map<Seq<char>, EntryView>,
    m0: Map<Seq<char>, EntryView>,
    user_id: Seq<char>,
    now: int,
) -> bool {
    forall|k: Seq<char>| m0.contains_key(k) && !swept(k, m0[k], user_id, now)
        ==> #[trigger] cur.contains_key(k)
}

/// Every key already visited by the sweep that named a swept entry is
/// gone from the store.
spec fn processed(
    cur: Map<Seq<char>, EntryView>,
    m0: Map<Seq<char>, EntryView>,
    keys: Seq<String>,
    n: int,
    user_id: Seq<char>,
    now: int,
) -> bool {
    forall|j: int| 0 <= j < n ==> !(swept(keys[j]@, m0[#[trigger] keys[j]@], user_id, now)
        && cur.contains_key(keys[j]@))
}

/// `keys` lists, exactly once each, every key of `m0` that carries the
/// prefix.
spec fn lists_keys(keys: Seq<String>, m0: Map<Seq<char>, EntryView>, prefix: Seq<char>) -> bool {
    &&& forall|j: int| 0 <= j < keys.len()
        ==> m0.contains_key(#[trigger] keys[j]@) && is_prefix_of(prefix, keys[j]@)
    &&& forall|k: Seq<char>| m0.contains_key(k) && is_prefix_of(prefix, k)
        ==> exists|j: int| 0 <= j < keys.len() && #[trigger] keys[j]@ == k
}

/// Law: a session fetched immediately after it was created comes back
/// intact — in particular it carries the owner it was created for — and
/// the fetch changes nothing.
pub proof fn lemma_get_after_create(
    m: Map<Seq<char>, EntryView>,
    rec: SessionView,
    store_expires_at: int,
    now: int,
)
    requires
        now <= rec.expires_at,
    ensures
        ({
            let m1 = m.insert(session_key(rec.session_id), EntryView { record: rec, store_expires_at });
            &&& spec_get_result(m1, rec.session_id, now) == Some(rec)
            &&& spec_get_store(m1, rec.session_id, now) == m1
        }),
{
}

/// Law: an expired record is invisible to every reader, even while it is
/// still physically present in the store.
pub proof fn lemma_expired_get_none(m: Map<Seq<char>, EntryView>, session_id: Seq<char>, now: int)
    requires
        m.contains_key(session_key(session_id)),
        now > m[session_key(session_id)].record.expires_at,
    ensures
        spec_get_result(m, session_id, now) is None,
{
}

/// Law: revocation is idempotent — revoking the same token a second time
/// leaves the store exactly as the first revocation did, and a revocation
/// never fails.
pub proof fn lemma_revoke_idempotent(m: Map<Seq<char>, EntryView>, session_id: Seq<char>)
    ensures
        m.remove(session_key(session_id)).remove(session_key(session_id))
            == m.remove(session_key(session_id)),
{
    assert(m.remove(session_key(session_id)).remove(session_key(session_id))
        =~= m.remove(session_key(session_id)));
}

/// Law: refreshing a session that is absent from the store returns
/// nothing and performs no write at all.
pub proof fn lemma_refresh_absent(m: Map<Seq<char>, EntryView>, session_id: Seq<char>, now: int)
    requires
        !m.contains_key(session_key(session_id)),
    ensures
        spec_get_result(m, session_id, now) is None,
        spec_get_store(m, session_id, now) == m,
{
}

/// Law: a refresh of a live session strictly extends the expiry and
/// preserves the token, the owner, the creation time and the client
/// metadata — whenever the prior expiry lies before now plus the
/// configured lifetime, as it does for any record created or refreshed
/// with that same lifetime at an earlier instant.
pub proof fn lemma_refresh_extends(prior: SessionView, now: int, lifetime_seconds: int)
    requires
        prior.expires_at < now + lifetime_seconds,
    ensures
        ({
            let updated = refreshed_record(prior, now, lifetime_seconds);
            &&& updated.expires_at > prior.expires_at
            &&& updated.session_id == prior.session_id
            &&& updated.user_id == prior.user_id
            &&& updated.created_at == prior.created_at
            &&& updated.user_agent == prior.user_agent
            &&& updated.ip_address == prior.ip_address
        }),
{
}

} // verus!
