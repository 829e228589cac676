use vstd::prelude::*;
use vstd::utf8::encode_utf8;
use crate::auth::argon2_hash_encoded;
use crate::db::{
    Database, alert_tracker_for, lemma_filter_element_from, lemma_next_tracker_id_fresh,
    lemma_next_watcher_id_fresh, login_in, monitoring_in, monitoring_of_tracker,
    monitoring_other_than, next_tracker_id, next_watcher_id, position_key_in, position_of_tracker,
    status_set, tracker_in, watcher_id_in,
};
use crate::model::{Monitoring, MonitoringRequest, Position, SignupResponse, Tracker, Watcher};
use crate::server::{
    HISTORY_WINDOW_SECONDS, ServerError, is_admin_id, login_result, may_read_history, recent_at,
    signup_effect,
};

verus! {

broadcast use vstd::seq_lib::group_filter_ensures;

/// A recorded monitoring is found by the existence check, and the pairs
/// recorded before stay found exactly as before.
pub proof fn law_monitoring_recorded_then_found(ms: Seq<Monitoring>, m: Monitoring, w: i32, t: i32)
    ensures
        monitoring_in(ms.push(m), m.watcher_id, m.tracker_id),
        monitoring_in(ms.push(m), w, t) <==> (monitoring_in(ms, w, t) || (w == m.watcher_id && t
            == m.tracker_id)),
{
    let s = ms.push(m);
    assert(s[ms.len() as int] == m);
    if monitoring_in(ms, w, t) {
        let k = choose|k: int| 0 <= k < ms.len() && ms[k].watcher_id == w && ms[k].tracker_id == t;
        assert(s[k] == ms[k]);
    }
    if monitoring_in(s, w, t) && !(w == m.watcher_id && t == m.tracker_id) {
        let k = choose|k: int| 0 <= k < s.len() && s[k].watcher_id == w && s[k].tracker_id == t;
        assert(k < ms.len());
        assert(s[k] == ms[k]);
    }
}

proof fn lemma_filter_all_kept<A>(s: Seq<A>, pred: spec_fn(A) -> bool)
    requires
        forall|i: int| 0 <= i < s.len() ==> pred(s[i]),
    ensures
        s.filter(pred) == s,
    decreases s.len(),
{
    reveal(Seq::filter);
    if s.len() > 0 {
        let d = s.drop_last();
        assert forall|i: int| 0 <= i < d.len() implies pred(d[i]) by {
            assert(d[i] == s[i]);
        }
        lemma_filter_all_kept(d, pred);
        assert(pred(s[s.len() - 1]));
        assert(s.filter(pred) =~= s);
    } else {
        assert(s.filter(pred) =~= s);
    }
}

/// A removed monitoring is no longer found, and every other pair is found
/// exactly as before.
pub proof fn law_monitoring_removed_then_absent(ms: Seq<Monitoring>, w: i32, t: i32, w2: i32, t2: i32)
    ensures
        !monitoring_in(ms.filter(monitoring_other_than(w, t)), w, t),
        !(w2 == w && t2 == t) ==> (monitoring_in(ms.filter(monitoring_other_than(w, t)), w2, t2)
            <==> monitoring_in(ms, w2, t2)),
{
    let pred = monitoring_other_than(w, t);
    let f = ms.filter(pred);
    if monitoring_in(f, w, t) {
        let k = choose|k: int| 0 <= k < f.len() && f[k].watcher_id == w && f[k].tracker_id == t;
        assert(pred(f[k]));
    }
    if !(w2 == w && t2 == t) {
        if monitoring_in(ms, w2, t2) {
            let k = choose|k: int|
                0 <= k < ms.len() && ms[k].watcher_id == w2 && ms[k].tracker_id == t2;
            assert(pred(ms[k]));
            assert(f.contains(ms[k]));
            let j = choose|j: int| 0 <= j < f.len() && f[j] == ms[k];
            assert(f[j].watcher_id == w2 && f[j].tracker_id == t2);
        }
        if monitoring_in(f, w2, t2) {
            let k = choose|k: int| 0 <= k < f.len() && f[k].watcher_id == w2 && f[k].tracker_id == t2;
            lemma_filter_element_from(ms, pred, k);
            let j = choose|j: int| 0 <= j < ms.len() && ms[j] == f[k];
            assert(ms[j].watcher_id == w2 && ms[j].tracker_id == t2);
        }
    }
}

/// Adding a monitoring that did not exist and then removing it gives the
/// monitoring table back unchanged.
pub proof fn law_monitoring_added_then_removed(ms: Seq<Monitoring>, m: Monitoring)
    requires
        !monitoring_in(ms, m.watcher_id, m.tracker_id),
    ensures
        ms.push(m).filter(monitoring_other_than(m.watcher_id, m.tracker_id)) == ms,
{
    let pred = monitoring_other_than(m.watcher_id, m.tracker_id);
    assert forall|i: int| 0 <= i < ms.len() implies pred(ms[i]) by {
        if !pred(ms[i]) {
            assert(ms[i].watcher_id == m.watcher_id && ms[i].tracker_id == m.tracker_id);
        }
    }
    lemma_filter_all_kept(ms, pred);
    reveal(Seq::filter);
    assert(ms.push(m).drop_last() =~= ms);
}

/// A recorded position is listed last among the positions of its tracker,
/// after those listed before.
pub proof fn law_position_recorded_then_listed(ps: Seq<Position>, p: Position)
    ensures
        ps.push(p).filter(position_of_tracker(p.tracker_id)) == ps.filter(
            position_of_tracker(p.tracker_id),
        ).push(p),
{
    reveal(Seq::filter);
    assert(ps.push(p).drop_last() =~= ps);
}

/// After a status update of a known tracker, the tracker is among a
/// watcher's alerts exactly when the new status is 1 and the watcher
/// follows the tracker.
pub proof fn law_status_then_alerts(
    ts: Seq<Tracker>,
    ms: Seq<Monitoring>,
    id: i32,
    status: i32,
    w: i32,
)
    requires
        tracker_in(ts, id),
    ensures
        tracker_in(ts.map_values(status_set(id, status)).filter(alert_tracker_for(ms, w)), id) <==> (
        status == 1 && monitoring_in(ms, w, id)),
{
    let upd = ts.map_values(status_set(id, status));
    let pred = alert_tracker_for(ms, w);
    let f = upd.filter(pred);
    let k0 = choose|k: int| 0 <= k < ts.len() && ts[k].id == id;
    assert(upd[k0].id == id && upd[k0].status == status);
    if status == 1 && monitoring_in(ms, w, id) {
        assert(pred(upd[k0]));
        assert(f.contains(upd[k0]));
        let j = choose|j: int| 0 <= j < f.len() && f[j] == upd[k0];
        assert(f[j].id == id);
    }
    if tracker_in(f, id) {
        let k = choose|k: int| 0 <= k < f.len() && f[k].id == id;
        assert(pred(f[k]));
        lemma_filter_element_from(upd, pred, k);
        let j = choose|j: int| 0 <= j < upd.len() && upd[j] == f[k];
        assert(ts[j].id == id);
        assert(f[k].status == status);
    }
}

/// A new watcher or tracker never receives an id already in use.
pub proof fn law_new_ids_are_fresh(ws: Seq<Watcher>, ts: Seq<Tracker>)
    ensures
        next_watcher_id(ws) <= i32::MAX ==> !watcher_id_in(ws, next_watcher_id(ws) as i32),
        next_tracker_id(ts) <= i32::MAX ==> !tracker_in(ts, next_tracker_id(ts) as i32),
{
    lemma_next_watcher_id_fresh(ws);
    lemma_next_tracker_id_fresh(ts);
}

proof fn lemma_login_passes_other_logins(
    ws: Seq<Watcher>,
    w: Watcher,
    login: Seq<char>,
    password: Seq<char>,
)
    requires
        !login_in(ws, login),
    ensures
        login_result(ws.push(w), login, password) == login_result(seq![w], login, password),
    decreases ws.len(),
{
    if ws.len() > 0 {
        assert(ws[0].login@ != login);
        assert(ws.push(w)[0] == ws[0]);
        assert(ws.push(w).drop_first() =~= ws.drop_first().push(w));
        assert(!login_in(ws.drop_first(), login)) by {
            if login_in(ws.drop_first(), login) {
                let k = choose|k: int|
                    0 <= k < ws.drop_first().len() && ws.drop_first()[k].login@ == login;
                assert(ws[k + 1] == ws.drop_first()[k]);
            }
        }
        lemma_login_passes_other_logins(ws.drop_first(), w, login, password);
    } else {
        assert(ws.push(w) =~= seq![w]);
    }
}

/// A successful signup is followed by a successful login with the same
/// login and password, which yields the new user's id.
pub proof fn law_signup_then_login(
    before: Database,
    after: Database,
    login: Seq<char>,
    password: Seq<char>,
    salt: Seq<u8>,
    user_id: i32,
)
    requires
        signup_effect(
            before,
            after,
            login,
            password,
            salt,
            Ok::<SignupResponse, ServerError>(SignupResponse { user_id, success: true }),
        ),
    ensures
        login_result(after.watcher_table(), login, password) == Ok::<Option<i32>, ServerError>(
            Some(user_id),
        ),
{
    let ws = after.watcher_table();
    let w = ws.last();
    assert(ws == before.watcher_table().push(w));
    lemma_login_passes_other_logins(before.watcher_table(), w, login, password);
    assert(seq![w][0] == w);
    assert(argon2_hash_encoded(encode_utf8(password), w.salt@) == Some(w.password@));
}

/// After a successful signup, a login with the same login and any other
/// password short enough to hash succeeds exactly when that password's hash
/// under the stored salt equals the hash stored at signup, and is refused
/// otherwise.
pub proof fn law_signup_then_login_other_password(
    before: Database,
    after: Database,
    login: Seq<char>,
    password: Seq<char>,
    other: Seq<char>,
    salt: Seq<u8>,
    user_id: i32,
)
    requires
        signup_effect(
            before,
            after,
            login,
            password,
            salt,
            Ok::<SignupResponse, ServerError>(SignupResponse { user_id, success: true }),
        ),
        encode_utf8(other).len() <= u32::MAX,
    ensures
        login_result(after.watcher_table(), login, other) == (if argon2_hash_encoded(
            encode_utf8(other),
            salt,
        ) == argon2_hash_encoded(encode_utf8(password), salt) {
            Ok::<Option<i32>, ServerError>(Some(user_id))
        } else {
            Ok::<Option<i32>, ServerError>(None)
        }),
{
    let ws = after.watcher_table();
    let w = ws.last();
    assert(ws == before.watcher_table().push(w));
    lemma_login_passes_other_logins(before.watcher_table(), w, login, other);
    assert(seq![w][0] == w);
}

/// A signup with a login already in use is refused and changes nothing.
pub proof fn law_signup_existing_login_refused(
    before: Database,
    after: Database,
    login: Seq<char>,
    password: Seq<char>,
    salt: Seq<u8>,
    r: Result<SignupResponse, ServerError>,
)
    requires
        login_in(before.watcher_table(), login),
        signup_effect(before, after, login, password, salt, r),
    ensures
        r == Ok::<SignupResponse, ServerError>(SignupResponse { user_id: 0, success: false }),
        after == before,
{
}

/// The history of a tracker holds exactly its positions of the last hour:
/// each listed position belongs to the tracker and is younger than an
/// hour, and each such stored position is listed.
pub proof fn law_history_window(ps: Seq<Position>, tracker_id: i32, now: u64)
    ensures
        forall|k: int|
            0 <= k < ps.filter(position_of_tracker(tracker_id)).filter(recent_at(now)).len() ==> (
            #[trigger] ps.filter(position_of_tracker(tracker_id)).filter(recent_at(now))[k]).tracker_id
                == tracker_id && (now as int) - (ps.filter(position_of_tracker(tracker_id)).filter(
                recent_at(now),
            )[k].timestamp as int) < HISTORY_WINDOW_SECONDS,
        forall|j: int|
            0 <= j < ps.len() && ps[j].tracker_id == tracker_id && (now as int) - (
            ps[j].timestamp as int) < HISTORY_WINDOW_SECONDS ==> ps.filter(
                position_of_tracker(tracker_id),
            ).filter(recent_at(now)).contains(ps[j]),
{
    let of_tracker = position_of_tracker(tracker_id);
    let recent = recent_at(now);
    let f1 = ps.filter(of_tracker);
    let f2 = f1.filter(recent);
    assert forall|k: int| 0 <= k < f2.len() implies f2[k].tracker_id == tracker_id && (now as int)
        - (f2[k].timestamp as int) < HISTORY_WINDOW_SECONDS by {
        assert(recent(f2[k]));
        lemma_filter_element_from(f1, recent, k);
        let j = choose|j: int| 0 <= j < f1.len() && f1[j] == f2[k];
        assert(of_tracker(f1[j]));
    }
    assert forall|j: int|
        0 <= j < ps.len() && ps[j].tracker_id == tracker_id && (now as int) - (
        ps[j].timestamp as int) < HISTORY_WINDOW_SECONDS implies f2.contains(ps[j]) by {
        assert(of_tracker(ps[j]));
        assert(f1.contains(ps[j]));
        let i = choose|i: int| 0 <= i < f1.len() && f1[i] == ps[j];
        assert(recent(f1[i]));
    }
}

// ---------------------------------------------------------------------------
// What each lookup answers, over the whole table
// ---------------------------------------------------------------------------

/// A login attempt is decided by the first watcher whose login equals the
/// requested one, wherever it stands in the table: hashing fails on a salt
/// of fewer than 8 or more than `u32::MAX` bytes or a password of more
/// than `u32::MAX` bytes; otherwise the watcher's id is returned when the
/// password's hash under its salt is its stored hash, and nothing when it
/// is not.
pub proof fn law_login_decided_by_first_match(
    ws: Seq<Watcher>,
    login: Seq<char>,
    password: Seq<char>,
    k: int,
)
    requires
        0 <= k < ws.len(),
        ws[k].login@ == login,
        forall|j: int| 0 <= j < k ==> ws[j].login@ != login,
    ensures
        login_result(ws, login, password) == (if !(8 <= ws[k].salt@.len() <= u32::MAX
            && encode_utf8(password).len() <= u32::MAX) {
            Err::<Option<i32>, ServerError>(ServerError::HashFailure)
        } else if argon2_hash_encoded(encode_utf8(password), ws[k].salt@) == Some(
            ws[k].password@,
        ) {
            Ok::<Option<i32>, ServerError>(Some(ws[k].id))
        } else {
            Ok::<Option<i32>, ServerError>(None)
        }),
    decreases k,
{
    if k > 0 {
        assert(ws[0].login@ != login);
        let d = ws.drop_first();
        assert forall|j: int| 0 <= j < k - 1 implies d[j].login@ != login by {
            assert(d[j] == ws[j + 1]);
        }
        assert(d[k - 1] == ws[k]);
        law_login_decided_by_first_match(d, login, password, k - 1);
    }
}

/// A login that no watcher has is refused without hashing.
pub proof fn law_login_unknown_refused(ws: Seq<Watcher>, login: Seq<char>, password: Seq<char>)
    requires
        forall|j: int| 0 <= j < ws.len() ==> ws[j].login@ != login,
    ensures
        login_result(ws, login, password) == Ok::<Option<i32>, ServerError>(None),
    decreases ws.len(),
{
    if ws.len() > 0 {
        assert(ws[0].login@ != login);
        let d = ws.drop_first();
        assert forall|j: int| 0 <= j < d.len() implies d[j].login@ != login by {
            assert(d[j] == ws[j + 1]);
        }
        law_login_unknown_refused(d, login, password);
    }
}

/// With unique logins, the right password of any watcher, at any place in
/// the table, logs in as that watcher.
pub proof fn law_login_accepts_any_watcher(
    ws: Seq<Watcher>,
    password: Seq<char>,
    k: int,
)
    requires
        0 <= k < ws.len(),
        forall|i: int, j: int| 0 <= i < j < ws.len() ==> ws[i].login@ != ws[j].login@,
        8 <= ws[k].salt@.len() <= u32::MAX,
        encode_utf8(password).len() <= u32::MAX,
        argon2_hash_encoded(encode_utf8(password), ws[k].salt@) == Some(ws[k].password@),
    ensures
        login_result(ws, ws[k].login@, password) == Ok::<Option<i32>, ServerError>(
            Some(ws[k].id),
        ),
{
    law_login_decided_by_first_match(ws, ws[k].login@, password, k);
}

/// A login is in use exactly when it equals the login of a stored
/// watcher: none is in use in an empty table, and adding a watcher puts
/// its own login, and no other, in use.
pub proof fn law_login_in_use_by_equality(ws: Seq<Watcher>, w: Watcher, login: Seq<char>)
    ensures
        !login_in(Seq::<Watcher>::empty(), login),
        login_in(ws.push(w), login) <==> (login_in(ws, login) || w.login@ == login),
{
    let s = ws.push(w);
    assert(s[ws.len() as int] == w);
    if login_in(ws, login) {
        let k = choose|k: int| 0 <= k < ws.len() && ws[k].login@ == login;
        assert(s[k] == ws[k]);
    }
    if login_in(s, login) && w.login@ != login {
        let k = choose|k: int| 0 <= k < s.len() && s[k].login@ == login;
        assert(k < ws.len());
        assert(s[k] == ws[k]);
    }
}

/// A signup whose login differs from every stored login, with ids left and
/// a salt and password of hashable lengths, creates the account under the
/// next id.
pub proof fn law_signup_new_login_succeeds(
    before: Database,
    after: Database,
    login: Seq<char>,
    password: Seq<char>,
    salt: Seq<u8>,
    r: Result<SignupResponse, ServerError>,
)
    requires
        signup_effect(before, after, login, password, salt, r),
        forall|k: int|
            0 <= k < before.watcher_table().len() ==> before.watcher_table()[k].login@ != login,
        next_watcher_id(before.watcher_table()) <= i32::MAX,
        8 <= salt.len() <= u32::MAX,
        encode_utf8(password).len() <= u32::MAX,
    ensures
        r == Ok::<SignupResponse, ServerError>(
            SignupResponse {
                user_id: next_watcher_id(before.watcher_table()) as i32,
                success: true,
            },
        ),
        after.watcher_table().len() == before.watcher_table().len() + 1,
        after.watcher_table().last().login@ == login,
{
}

/// A signup whose login equals the login of a stored watcher is refused and
/// changes nothing.
pub proof fn law_signup_equal_login_refused(
    before: Database,
    after: Database,
    login: Seq<char>,
    password: Seq<char>,
    salt: Seq<u8>,
    r: Result<SignupResponse, ServerError>,
    k: int,
)
    requires
        signup_effect(before, after, login, password, salt, r),
        0 <= k < before.watcher_table().len(),
        before.watcher_table()[k].login@ == login,
    ensures
        r == Ok::<SignupResponse, ServerError>(SignupResponse { user_id: 0, success: false }),
        after == before,
{
}

/// The administrator is any watcher with the login `admin`, wherever it
/// stands: no one in an empty table, and adding a watcher makes its id an
/// administrator's exactly when its login is `admin`.
pub proof fn law_admin_by_login(ws: Seq<Watcher>, w: Watcher, id: i32)
    ensures
        !is_admin_id(Seq::<Watcher>::empty(), id),
        is_admin_id(ws.push(w), id) <==> (is_admin_id(ws, id) || (w.id == id && w.login@
            == "admin"@)),
{
    let s = ws.push(w);
    assert(s[ws.len() as int] == w);
    if is_admin_id(ws, id) {
        let k = choose|k: int| 0 <= k < ws.len() && ws[k].id == id && ws[k].login@ == "admin"@;
        assert(s[k] == ws[k]);
    }
    if is_admin_id(s, id) && !(w.id == id && w.login@ == "admin"@) {
        let k = choose|k: int| 0 <= k < s.len() && s[k].id == id && s[k].login@ == "admin"@;
        assert(k < ws.len());
        assert(s[k] == ws[k]);
    }
}

/// A watcher with the login `admin`, at any place in the table, may read
/// the history of any monitoring.
pub proof fn law_admin_reads_any_history(db: Database, k: int, data: MonitoringRequest)
    requires
        0 <= k < db.watcher_table().len(),
        db.watcher_table()[k].login@ == "admin"@,
    ensures
        may_read_history(db, db.watcher_table()[k].id, data),
{
    let ws = db.watcher_table();
    assert(0 <= k < ws.len() && ws[k].id == ws[k].id && ws[k].login@ == "admin"@);
}

/// The monitorings listed for a tracker are exactly those whose tracker is
/// that one: each listed monitoring is of the tracker, each monitoring of
/// the tracker is listed, and no more are listed than there are.
pub proof fn law_monitorings_of_tracker_exact(ms: Seq<Monitoring>, t: i32)
    ensures
        forall|i: int|
            0 <= i < ms.filter(monitoring_of_tracker(t)).len() ==> (#[trigger] ms.filter(
                monitoring_of_tracker(t),
            )[i]).tracker_id == t,
        forall|j: int|
            0 <= j < ms.len() && ms[j].tracker_id == t ==> ms.filter(
                monitoring_of_tracker(t),
            ).contains(#[trigger] ms[j]),
        ms.filter(monitoring_of_tracker(t)).len() <= ms.len(),
{
    let pred = monitoring_of_tracker(t);
    let f = ms.filter(pred);
    assert forall|i: int| 0 <= i < f.len() implies (#[trigger] f[i]).tracker_id == t by {
        assert(pred(f[i]));
    }
    assert forall|j: int| 0 <= j < ms.len() && ms[j].tracker_id == t implies f.contains(
        #[trigger] ms[j],
    ) by {
        assert(pred(ms[j]));
    }
}

/// A position is a duplicate only of a position of the same tracker at the
/// same second: nothing is in an empty table, positions of other trackers
/// or at other seconds never count, and a recorded position counts for its
/// own tracker and second.
pub proof fn law_position_duplicate_same_tracker_and_second(
    ps: Seq<Position>,
    p: Position,
    t: i32,
    s: i64,
)
    ensures
        !position_key_in(Seq::<Position>::empty(), t, s),
        position_key_in(ps.push(p), p.tracker_id, p.timestamp),
        !(p.tracker_id == t && p.timestamp == s) ==> (position_key_in(ps.push(p), t, s)
            <==> position_key_in(ps, t, s)),
{
    let q = ps.push(p);
    assert(q[ps.len() as int] == p);
    if position_key_in(ps, t, s) {
        let k = choose|k: int| 0 <= k < ps.len() && ps[k].tracker_id == t && ps[k].timestamp == s;
        assert(q[k] == ps[k]);
    }
    if position_key_in(q, t, s) && !(p.tracker_id == t && p.timestamp == s) {
        let k = choose|k: int| 0 <= k < q.len() && q[k].tracker_id == t && q[k].timestamp == s;
        assert(k < ps.len());
        assert(q[k] == ps[k]);
    }
}

} // verus!
