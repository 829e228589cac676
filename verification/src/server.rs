use vstd::prelude::*;
use vstd::string::*;
use vstd::utf8::encode_utf8;
use crate::auth::{argon2_encoded_prefix, argon2_hash_encoded, hash_password, hashable, random_salt};
use crate::db::{
    Change, Database, StoreError, alert_tracker_for, delete_monitoring, get_alert_trackers,
    get_monitorings, get_position, get_watcher, insert_monitoring, insert_position, insert_tracker,
    insert_watcher, login_in, monitoring_in, monitoring_of_tracker, monitoring_other_than,
    monitoring_exists, next_tracker_id, next_watcher_id, position_key_in, position_of_tracker,
    status_set, tracker_exists, tracker_in, update_tracker_status, watcher_exists, watcher_id_in,
};
use crate::model::{
    JWT, LoginRequest, Monitoring, MonitoringRequest, Position, PositionRequest, SignupRequest,
    SignupResponse, Tracker, TrackerInsert, WatcherInsert, coordinate_within_ninety_degrees,
    within_ninety_degrees,
};
use crate::responder::CustomResponse;

verus! {

/// Why a route cannot answer: the conditions under which the server
/// aborts the request.
#[derive(Clone, Copy, Debug, PartialEq, Eq, Structural)]
pub enum ServerError {
    /// The password could not be hashed.
    HashFailure,
    /// A table refused the change.
    Store(StoreError),
}

/// A mail to send.
pub struct Mail {
    pub address: String,
    pub message: String,
}

// ---------------------------------------------------------------------------
// Home page
// ---------------------------------------------------------------------------

/// The body of the home page.
pub fn index() -> (r: &'static str)
    ensures
        r@ == "Hello, world!"@,
{
    "Hello, world!"
}

// ---------------------------------------------------------------------------
// Accounts
// ---------------------------------------------------------------------------

/// A watcher with this id has the login `admin`.
pub open spec fn is_admin_id(ws: Seq<crate::model::Watcher>, id: i32) -> bool {
    exists|k: int| 0 <= k < ws.len() && ws[k].id == id && ws[k].login@ == "admin"@
}

/// Whether the user with this id is the administrator.
pub fn is_user_id_admin(db: &Database, id: i32) -> (r: bool)
    ensures
        r == is_admin_id(db.watcher_table(), id),
{
    let admin = String::from_str("admin");
    let watchers = db.watchers();
    let mut i: usize = 0;
    while i < watchers.len()
        invariant
            i <= watchers.len(),
            watchers@ == db.watcher_table(),
            admin@ == "admin"@,
            forall|k: int|
                0 <= k < i ==> !(watchers@[k].id == id && watchers@[k].login@ == "admin"@),
        decreases watchers.len() - i,
    {
        if watchers[i].id == id {
            if watchers[i].login == admin {
                return true;
            }
        }
        i += 1;
    }
    false
}

/// What a signup with a given salt does: `r` is its answer, `after` the
/// tables it leaves behind `before`.
pub open spec fn signup_effect(
    before: Database,
    after: Database,
    login: Seq<char>,
    password: Seq<char>,
    salt: Seq<u8>,
    r: Result<SignupResponse, ServerError>,
) -> bool {
    let hash = argon2_hash_encoded(encode_utf8(password), salt);
    let id = next_watcher_id(before.watcher_table());
    if login_in(before.watcher_table(), login) {
        r == Ok::<SignupResponse, ServerError>(SignupResponse { user_id: 0, success: false })
            && after == before
    } else if !hashable(encode_utf8(password), salt) {
        r == Err::<SignupResponse, ServerError>(ServerError::HashFailure) && after == before
    } else if id > i32::MAX {
        r == Err::<SignupResponse, ServerError>(ServerError::Store(StoreError::IdsExhausted))
            && after == before
    } else {
        let ws = after.watcher_table();
        &&& r == Ok::<SignupResponse, ServerError>(
            SignupResponse { user_id: id as i32, success: true },
        )
        &&& ws.len() == before.watcher_table().len() + 1
        &&& ws.drop_last() == before.watcher_table()
        &&& ws.last().id == id
        &&& ws.last().login@ == login
        &&& Some(ws.last().password@) == hash
        &&& argon2_encoded_prefix().is_prefix_of(ws.last().password@)
        &&& ws.last().salt@ == salt
        &&& after.journal_entries() == before.journal_entries().push(
            Change::WatcherAdded { id: id as i32 },
        )
        &&& after.tracker_table() == before.tracker_table()
        &&& after.monitoring_table() == before.monitoring_table()
        &&& after.position_table() == before.position_table()
    }
}

/// Creates an account whose password is hashed with the given salt; an
/// existing login is answered with an unsuccessful response.
pub fn signup_with_salt(db: &mut Database, signup_request: SignupRequest, salt: Vec<u8>) -> (r:
    Result<SignupResponse, ServerError>)
    requires
        old(db).wf(),
    ensures
        final(db).wf(),
        signup_effect(
            *old(db),
            *final(db),
            signup_request.login@,
            signup_request.password@,
            salt@,
            r,
        ),
{
    if watcher_exists(db, signup_request.login.clone()) {
        return Ok(SignupResponse { user_id: 0, success: false });
    }
    let hashed = hash_password(signup_request.password.as_str().as_bytes(), salt.as_slice());
    match hashed {
        None => Err(ServerError::HashFailure),
        Some(hashed_password) => {
            let ghost before = *db;
            let login = signup_request.login;
            let inserted = insert_watcher(
                db,
                WatcherInsert { login, password: hashed_password, salt },
            );
            match inserted {
                Err(e) => Err(ServerError::Store(e)),
                Ok(()) => {
                    let watchers = db.watchers();
                    let id = watchers[watchers.len() - 1].id;
                    assert(db.watcher_table().drop_last() =~= before.watcher_table());
                    Ok(SignupResponse { user_id: id, success: true })
                },
            }
        },
    }
}

/// Creates an account with a fresh random 32-byte salt; an existing login
/// is answered with an unsuccessful response.
pub fn signup(db: &mut Database, signup_request: SignupRequest) -> (r: Result<
    SignupResponse,
    ServerError,
>)
    requires
        old(db).wf(),
    ensures
        final(db).wf(),
        exists|salt: Seq<u8>|
            salt.len() == 32 && signup_effect(
                *old(db),
                *final(db),
                signup_request.login@,
                signup_request.password@,
                salt,
                r,
            ),
        !login_in(old(db).watcher_table(), signup_request.login@) && next_watcher_id(
            old(db).watcher_table(),
        ) <= i32::MAX && encode_utf8(signup_request.password@).len() <= u32::MAX ==> r == Ok::<
            SignupResponse,
            ServerError,
        >(
            SignupResponse {
                user_id: next_watcher_id(old(db).watcher_table()) as i32,
                success: true,
            },
        ),
{
    if watcher_exists(db, signup_request.login.clone()) {
        let r = Ok(SignupResponse { user_id: 0, success: false });
        let ghost witness = Seq::new(32, |i: int| 0u8);
        assert(witness.len() == 32);
        assert(signup_effect(
            *old(db),
            *db,
            signup_request.login@,
            signup_request.password@,
            witness,
            r,
        ));
        return r;
    }
    let salt = random_salt();
    let ghost salt_view = salt@;
    let ghost login = signup_request.login@;
    let ghost password = signup_request.password@;
    let r = signup_with_salt(db, signup_request, salt);
    assert(signup_effect(*old(db), *db, login, password, salt_view, r));
    r
}

/// The outcome of a login attempt: the first watcher with the login is
/// checked; hashing fails on a salt shorter than 8 or longer than
/// `u32::MAX` bytes or a password longer than `u32::MAX` bytes; otherwise
/// the password is right when its hash under that watcher's salt is the
/// stored hash.
pub open spec fn login_result(
    ws: Seq<crate::model::Watcher>,
    login: Seq<char>,
    password: Seq<char>,
) -> Result<Option<i32>, ServerError>
    decreases ws.len(),
{
    if ws.len() == 0 {
        Ok(None)
    } else if ws[0].login@ == login {
        if !hashable(encode_utf8(password), ws[0].salt@) {
            Err(ServerError::HashFailure)
        } else if argon2_hash_encoded(encode_utf8(password), ws[0].salt@) == Some(
            ws[0].password@,
        ) {
            Ok(Some(ws[0].id))
        } else {
            Ok(None)
        }
    } else {
        login_result(ws.drop_first(), login, password)
    }
}

/// Checks a login request: the id of the user when the password is right,
/// `None` when the login is unknown or the password wrong.
pub fn login(db: &Database, login_request: &LoginRequest) -> (r: Result<Option<i32>, ServerError>)
    ensures
        r == login_result(db.watcher_table(), login_request.login@, login_request.password@),
{
    let watchers = db.watchers();
    let ghost ws = db.watcher_table();
    let ghost login = login_request.login@;
    let ghost password = login_request.password@;
    let mut i: usize = 0;
    assert(ws.skip(0) =~= ws);
    while i < watchers.len()
        invariant
            i <= watchers.len(),
            watchers@ == ws,
            ws == db.watcher_table(),
            login == login_request.login@,
            password == login_request.password@,
            login_result(ws, login, password) == login_result(ws.skip(i as int), login, password),
        decreases watchers.len() - i,
    {
        assert(ws.skip(i as int)[0] == ws[i as int]);
        if watchers[i].login == login_request.login {
            let salt = watchers[i].salt.as_slice();
            let bytes = login_request.password.as_str().as_bytes();
            assert(bytes@ == encode_utf8(password));
            assert(salt@ == ws.skip(i as int)[0].salt@);
            assert(ws.skip(i as int)[0].login@ == login);
            match hash_password(bytes, salt) {
                None => return Err(ServerError::HashFailure),
                Some(hashed_password) => {
                    if hashed_password == watchers[i].password {
                        return Ok(Some(watchers[i].id));
                    } else {
                        return Ok(None);
                    }
                },
            }
        }
        assert(ws.skip(i as int).drop_first() =~= ws.skip(i + 1));
        i += 1;
    }
    assert(ws.skip(i as int).len() == 0);
    Ok(None)
}

// ---------------------------------------------------------------------------
// Positions
// ---------------------------------------------------------------------------

/// Length, in seconds, of the window of positions that the history shows.
pub const HISTORY_WINDOW_SECONDS: u64 = 3600u64;

/// The requester may read the history of a monitoring: the administrator
/// may read any; a user may read the ones of its own monitorings.
pub open spec fn may_read_history(db: Database, subject_id: i32, data: MonitoringRequest) -> bool {
    ||| is_admin_id(db.watcher_table(), subject_id)
    ||| (subject_id == data.watcher_id && monitoring_in(
        db.monitoring_table(),
        data.watcher_id,
        data.tracker_id,
    ))
}

/// Recorded less than an hour before `now`.
pub open spec fn recent_at(now: u64) -> spec_fn(Position) -> bool {
    |p: Position| (now as int) - (p.timestamp as int) < HISTORY_WINDOW_SECONDS
}

/// Every position is stamped between the epoch and `now`.
pub open spec fn stamped_by(ps: Seq<Position>, now: u64) -> bool {
    forall|k: int| 0 <= k < ps.len() ==> 0 <= ps[k].timestamp && ps[k].timestamp <= now
}

/// Whether a history request would meet a position stamped before the
/// epoch or after `now`, for which the age of the position is undefined.
pub fn history_clock_conflict(db: &Database, data: MonitoringRequest, jwt: JWT, now: u64) -> (r:
    bool)
    ensures
        r == (may_read_history(*db, jwt.claims.subject_id, data) && !stamped_by(
            db.position_table().filter(position_of_tracker(data.tracker_id)),
            now,
        )),
{
    let subject = jwt.claims.subject_id;
    if !(is_user_id_admin(db, subject) || (subject == data.watcher_id && monitoring_exists(
        db,
        data.watcher_id,
        data.tracker_id,
    ))) {
        return false;
    }
    let positions = get_position(db, data.tracker_id);
    let mut i: usize = 0;
    while i < positions.len()
        invariant
            i <= positions.len(),
            positions@ == db.position_table().filter(position_of_tracker(data.tracker_id)),
            may_read_history(*db, jwt.claims.subject_id, data),
            forall|k: int|
                0 <= k < i ==> 0 <= positions@[k].timestamp && positions@[k].timestamp <= now,
        decreases positions.len() - i,
    {
        let ts = positions[i].timestamp;
        if ts < 0 || ts as u64 > now {
            return true;
        }
        i += 1;
    }
    false
}

/// The positions of the last hour of a monitored tracker, for the
/// administrator or the monitoring's own user; anyone else is refused.
pub fn history(db: &Database, data: MonitoringRequest, jwt: JWT, now: u64) -> (r: Result<
    Vec<Position>,
    CustomResponse,
>)
    requires
        may_read_history(*db, jwt.claims.subject_id, data) ==> stamped_by(
            db.position_table().filter(position_of_tracker(data.tracker_id)),
            now,
        ),
    ensures
        may_read_history(*db, jwt.claims.subject_id, data) ==> (r matches Ok(v) && v@
            == db.position_table().filter(position_of_tracker(data.tracker_id)).filter(
            recent_at(now),
        )),
        !may_read_history(*db, jwt.claims.subject_id, data) ==> r == Err::<
            Vec<Position>,
            CustomResponse,
        >(CustomResponse::Unauthorized),
{
    let subject = jwt.claims.subject_id;
    let user_is_admin = is_user_id_admin(db, subject);
    if user_is_admin || (subject == data.watcher_id && monitoring_exists(
        db,
        data.watcher_id,
        data.tracker_id,
    )) {
        let positions = get_position(db, data.tracker_id);
        let ghost recent = recent_at(now);
        let mut last_positions: Vec<Position> = Vec::new();
        let mut i: usize = 0;
        while i < positions.len()
            invariant
                i <= positions.len(),
                recent == recent_at(now),
                stamped_by(positions@, now),
                last_positions@ == positions@.take(i as int).filter(recent),
            decreases positions.len() - i,
        {
            proof {
                crate::db::lemma_filter_take_step(positions@, recent, i as int);
            }
            let pos = positions[i];
            if now - (pos.timestamp as u64) < HISTORY_WINDOW_SECONDS {
                last_positions.push(pos);
            }
            i += 1;
        }
        assert(positions@.take(positions.len() as int) =~= positions@);
        Ok(last_positions)
    } else {
        Err(CustomResponse::Unauthorized)
    }
}

/// Records a position sent by a known tracker, stamped `now`, when both
/// coordinates are within 90 degrees; any other position is refused.
pub fn addposition(db: &mut Database, data: PositionRequest, now: u64) -> (r: Result<
    CustomResponse,
    ServerError,
>)
    requires
        old(db).wf(),
    ensures
        final(db).wf(),
        ({
            let accepted = tracker_in(old(db).tracker_table(), data.tracker_id)
                && within_ninety_degrees(data.latitude) && within_ninety_degrees(data.longitude);
            let stamp = now as i64;
            if !accepted {
                r == Ok::<CustomResponse, ServerError>(CustomResponse::Forbidden) && *final(db)
                    == *old(db)
            } else if position_key_in(old(db).position_table(), data.tracker_id, stamp) {
                r == Err::<CustomResponse, ServerError>(
                    ServerError::Store(StoreError::DuplicateKey),
                ) && *final(db) == *old(db)
            } else {
                &&& r == Ok::<CustomResponse, ServerError>(CustomResponse::OK)
                &&& final(db).position_table() == old(db).position_table().push(
                    Position {
                        latitude: data.latitude,
                        longitude: data.longitude,
                        tracker_id: data.tracker_id,
                        timestamp: stamp,
                    },
                )
                &&& final(db).journal_entries() == old(db).journal_entries().push(
                    Change::PositionAdded { tracker_id: data.tracker_id, timestamp: stamp },
                )
                &&& final(db).watcher_table() == old(db).watcher_table()
                &&& final(db).tracker_table() == old(db).tracker_table()
                &&& final(db).monitoring_table() == old(db).monitoring_table()
            }
        }),
{
    if tracker_exists(db, data.tracker_id) && coordinate_within_ninety_degrees(data.latitude)
        && coordinate_within_ninety_degrees(data.longitude) {
        let stamp = now as i64;
        match insert_position(db, data.latitude, data.longitude, data.tracker_id, stamp) {
            Ok(()) => Ok(CustomResponse::OK),
            Err(e) => Err(ServerError::Store(e)),
        }
    } else {
        Ok(CustomResponse::Forbidden)
    }
}

// ---------------------------------------------------------------------------
// Monitorings
// ---------------------------------------------------------------------------

/// Lets the authenticated user follow a known tracker it does not follow
/// yet; a request for another user is refused as unauthorized, any other
/// as forbidden.
pub fn addmonitoring(db: &mut Database, data: Monitoring, jwt: JWT) -> (r: CustomResponse)
    requires
        old(db).wf(),
    ensures
        final(db).wf(),
        jwt.claims.subject_id != data.watcher_id ==> r == CustomResponse::Unauthorized
            && *final(db) == *old(db),
        jwt.claims.subject_id == data.watcher_id && tracker_in(
            old(db).tracker_table(),
            data.tracker_id,
        ) && !monitoring_in(old(db).monitoring_table(), data.watcher_id, data.tracker_id) ==> {
            &&& r == CustomResponse::OK
            &&& final(db).monitoring_table() == old(db).monitoring_table().push(data)
            &&& final(db).journal_entries() == old(db).journal_entries().push(
                Change::MonitoringAdded { watcher_id: data.watcher_id, tracker_id: data.tracker_id },
            )
            &&& final(db).watcher_table() == old(db).watcher_table()
            &&& final(db).tracker_table() == old(db).tracker_table()
            &&& final(db).position_table() == old(db).position_table()
        },
        jwt.claims.subject_id == data.watcher_id && !(tracker_in(
            old(db).tracker_table(),
            data.tracker_id,
        ) && !monitoring_in(old(db).monitoring_table(), data.watcher_id, data.tracker_id))
            ==> r == CustomResponse::Forbidden && *final(db) == *old(db),
{
    if jwt.claims.subject_id != data.watcher_id {
        return CustomResponse::Unauthorized;
    }
    if tracker_exists(db, data.tracker_id) && !monitoring_exists(
        db,
        data.watcher_id,
        data.tracker_id,
    ) {
        let inserted = insert_monitoring(db, data.watcher_id, data.tracker_id, data.tracker_name);
        assert(inserted is Ok);
        CustomResponse::OK
    } else {
        CustomResponse::Forbidden
    }
}

/// Lets the authenticated user stop following a tracker; a request for
/// another user, or for a monitoring that does not exist, is refused as
/// unauthorized.
pub fn deletemonitoring(db: &mut Database, data: MonitoringRequest, jwt: JWT) -> (r: CustomResponse)
    requires
        old(db).wf(),
    ensures
        final(db).wf(),
        jwt.claims.subject_id == data.watcher_id && monitoring_in(
            old(db).monitoring_table(),
            data.watcher_id,
            data.tracker_id,
        ) ==> {
            &&& r == CustomResponse::OK
            &&& final(db).monitoring_table() == old(db).monitoring_table().filter(
                monitoring_other_than(data.watcher_id, data.tracker_id),
            )
            &&& final(db).journal_entries() == old(db).journal_entries().push(
                Change::MonitoringRemoved {
                    watcher_id: data.watcher_id,
                    tracker_id: data.tracker_id,
                },
            )
            &&& final(db).watcher_table() == old(db).watcher_table()
            &&& final(db).tracker_table() == old(db).tracker_table()
            &&& final(db).position_table() == old(db).position_table()
        },
        !(jwt.claims.subject_id == data.watcher_id && monitoring_in(
            old(db).monitoring_table(),
            data.watcher_id,
            data.tracker_id,
        )) ==> r == CustomResponse::Unauthorized && *final(db) == *old(db),
{
    if jwt.claims.subject_id != data.watcher_id {
        return CustomResponse::Unauthorized;
    }
    if monitoring_exists(db, data.watcher_id, data.tracker_id) {
        delete_monitoring(db, data.watcher_id, data.tracker_id);
        CustomResponse::OK
    } else {
        CustomResponse::Unauthorized
    }
}

// ---------------------------------------------------------------------------
// Trackers
// ---------------------------------------------------------------------------

/// Creates a tracker at the given coordinates and returns its id.
pub fn addtracker(db: &mut Database, data: TrackerInsert) -> (r: Result<i32, ServerError>)
    requires
        old(db).wf(),
    ensures
        final(db).wf(),
        ({
            let id = next_tracker_id(old(db).tracker_table());
            if id > i32::MAX {
                r == Err::<i32, ServerError>(ServerError::Store(StoreError::IdsExhausted))
                    && *final(db) == *old(db)
            } else {
                &&& r == Ok::<i32, ServerError>(id as i32)
                &&& final(db).tracker_table() == old(db).tracker_table().push(
                    Tracker {
                        id: id as i32,
                        status: 0,
                        latitude: data.latitude,
                        longitude: data.longitude,
                    },
                )
                &&& final(db).journal_entries() == old(db).journal_entries().push(
                    Change::TrackerAdded { id: id as i32 },
                )
                &&& final(db).watcher_table() == old(db).watcher_table()
                &&& final(db).monitoring_table() == old(db).monitoring_table()
                &&& final(db).position_table() == old(db).position_table()
            }
        }),
{
    match insert_tracker(db, data.latitude, data.longitude) {
        Ok(new_tracker) => Ok(new_tracker.id),
        Err(e) => Err(ServerError::Store(e)),
    }
}

/// The trackers followed by the authenticated user that have left their
/// zone.
pub fn getalerttrackers(db: &Database, jwt: JWT) -> (r: Vec<Tracker>)
    ensures
        r@ == db.tracker_table().filter(
            alert_tracker_for(db.monitoring_table(), jwt.claims.subject_id),
        ),
{
    get_alert_trackers(db, jwt.claims.subject_id)
}

// ---------------------------------------------------------------------------
// Tracker status and alert mails
// ---------------------------------------------------------------------------

/// What the mail about a tracker's new status says.
pub open spec fn alert_text(name: Seq<char>, status: i32) -> Seq<char> {
    if status == 0 {
        name + " est revenu dans la zone s\u{fb}re."@
    } else {
        name + " a quitt\u{e9} la zone s\u{fb}re."@
    }
}

/// The text of the mail about a tracker's new status.
pub fn alert_message(name: &String, status: i32) -> (message: String)
    ensures
        message@ == alert_text(name@, status),
{
    let mut message = name.clone();
    if status == 0 {
        message.append(" est revenu dans la zone s\u{fb}re.");
    } else {
        message.append(" a quitt\u{e9} la zone s\u{fb}re.");
    }
    message
}

/// `mail` tells the watcher of monitoring `m` about the new status.
pub open spec fn alert_mail_for(
    ws: Seq<crate::model::Watcher>,
    m: Monitoring,
    status: i32,
    mail: Mail,
) -> bool {
    exists|k: int|
        0 <= k < ws.len() && ws[k].id == m.watcher_id && mail.address@ == ws[k].login@
            && mail.message@ == alert_text(m.tracker_name@, status)
}

/// `mails` holds one alert per monitoring of `ms`, in order, up to the
/// first monitoring whose watcher is unknown; `complete` tells whether
/// there was none.
pub open spec fn alert_mails(
    ws: Seq<crate::model::Watcher>,
    ms: Seq<Monitoring>,
    status: i32,
    mails: Seq<Mail>,
    complete: bool,
) -> bool {
    &&& mails.len() <= ms.len()
    &&& complete <==> mails.len() == ms.len()
    &&& forall|i: int| 0 <= i < mails.len() ==> alert_mail_for(ws, ms[i], status, #[trigger] mails[i])
    &&& !complete ==> !watcher_id_in(ws, ms[mails.len() as int].watcher_id)
}

/// The answer to a status update and the mails to send, in order.
pub struct StatusUpdate {
    pub response: CustomResponse,
    pub mails: Vec<Mail>,
}

/// A status update aborted on a monitoring whose watcher is unknown: the
/// status is already set, and the mails of the monitorings before it are
/// still due.
pub struct MissingWatcher {
    pub watcher_id: i32,
    pub mails: Vec<Mail>,
}

/// Every monitoring names a known watcher.
pub open spec fn watchers_known(ws: Seq<crate::model::Watcher>, ms: Seq<Monitoring>) -> bool {
    forall|i: int| 0 <= i < ms.len() ==> watcher_id_in(ws, #[trigger] ms[i].watcher_id)
}

/// Sets the status of a known tracker and prepares a mail for each user
/// that follows it; an unknown tracker is refused. A monitoring whose
/// watcher is unknown aborts the update after the status is set, with the
/// mails of the monitorings before it.
pub fn setstatus(db: &mut Database, data: Tracker) -> (r: Result<StatusUpdate, MissingWatcher>)
    requires
        old(db).wf(),
    ensures
        final(db).wf(),
        !tracker_in(old(db).tracker_table(), data.id) ==> {
            &&& r matches Ok(u)
            &&& r->Ok_0.response == CustomResponse::Forbidden
            &&& r->Ok_0.mails@.len() == 0
            &&& *final(db) == *old(db)
        },
        tracker_in(old(db).tracker_table(), data.id) ==> {
            let ms = old(db).monitoring_table().filter(monitoring_of_tracker(data.id));
            let ws = old(db).watcher_table();
            &&& final(db).tracker_table() == old(db).tracker_table().map_values(
                status_set(data.id, data.status),
            )
            &&& final(db).journal_entries() == old(db).journal_entries().push(
                Change::TrackerStatusSet { tracker_id: data.id, status: data.status },
            )
            &&& final(db).watcher_table() == old(db).watcher_table()
            &&& final(db).monitoring_table() == old(db).monitoring_table()
            &&& final(db).position_table() == old(db).position_table()
            &&& (r is Ok <==> watchers_known(ws, ms))
            &&& r is Ok ==> r->Ok_0.response == CustomResponse::OK && alert_mails(
                ws,
                ms,
                data.status,
                r->Ok_0.mails@,
                true,
            )
            &&& r is Err ==> alert_mails(ws, ms, data.status, r->Err_0.mails@, false)
                && r->Err_0.watcher_id == ms[r->Err_0.mails@.len() as int].watcher_id
        },
{
    if !tracker_exists(db, data.id) {
        return Ok(StatusUpdate { response: CustomResponse::Forbidden, mails: Vec::new() });
    }
    update_tracker_status(db, data.id, data.status);
    let monitorings = get_monitorings(db, data.id);
    let mut mails: Vec<Mail> = Vec::new();
    let mut i: usize = 0;
    while i < monitorings.len()
        invariant
            db.wf(),
            tracker_in(old(db).tracker_table(), data.id),
            db.tracker_table() == old(db).tracker_table().map_values(
                status_set(data.id, data.status),
            ),
            db.journal_entries() == old(db).journal_entries().push(
                Change::TrackerStatusSet { tracker_id: data.id, status: data.status },
            ),
            db.watcher_table() == old(db).watcher_table(),
            db.monitoring_table() == old(db).monitoring_table(),
            db.position_table() == old(db).position_table(),
            monitorings@ == old(db).monitoring_table().filter(monitoring_of_tracker(data.id)),
            i <= monitorings.len(),
            mails@.len() == i,
            forall|j: int|
                0 <= j < i ==> alert_mail_for(
                    db.watcher_table(),
                    monitorings@[j],
                    data.status,
                    #[trigger] mails@[j],
                ),
        decreases monitorings.len() - i,
    {
        match get_watcher(db, monitorings[i].watcher_id) {
            None => {
                return Err(MissingWatcher { watcher_id: monitorings[i].watcher_id, mails });
            },
            Some(prtr) => {
                let message = alert_message(&monitorings[i].tracker_name, data.status);
                let mail = Mail { address: prtr.login, message };
                assert(alert_mail_for(db.watcher_table(), monitorings@[i as int], data.status, mail));
                mails.push(mail);
                i += 1;
            },
        }
    }
    proof {
        let ws = db.watcher_table();
        let ms = monitorings@;
        assert forall|j: int| 0 <= j < ms.len() implies watcher_id_in(ws, #[trigger] ms[j].watcher_id) by {
            assert(alert_mail_for(ws, ms[j], data.status, mails@[j]));
        }
    }
    Ok(StatusUpdate { response: CustomResponse::OK, mails })
}

// ---------------------------------------------------------------------------
// Cross-origin headers
// ---------------------------------------------------------------------------

/// A response header.
pub struct Header {
    pub name: &'static str,
    pub value: &'static str,
}

/// Adds the cross-origin headers to every response.
pub struct CORS;

impl CORS {
    /// The name under which the headers are attached to the server.
    pub fn info_name(&self) -> (r: &'static str)
        ensures
            r@ == "Add CORS headers to responses"@,
    {
        "Add CORS headers to responses"
    }

    /// The headers set on every response: any origin, the methods POST,
    /// GET, PATCH and OPTIONS, any header, and credentials.
    pub fn response_headers(&self) -> (r: Vec<Header>)
        ensures
            r@.len() == 4,
            r@[0].name@ == "Access-Control-Allow-Origin"@ && r@[0].value@ == "*"@,
            r@[1].name@ == "Access-Control-Allow-Methods"@ && r@[1].value@
                == "POST, GET, PATCH, OPTIONS"@,
            r@[2].name@ == "Access-Control-Allow-Headers"@ && r@[2].value@ == "*"@,
            r@[3].name@ == "Access-Control-Allow-Credentials"@ && r@[3].value@ == "true"@,
    {
        let mut r: Vec<Header> = Vec::new();
        r.push(Header { name: "Access-Control-Allow-Origin", value: "*" });
        r.push(Header { name: "Access-Control-Allow-Methods", value: "POST, GET, PATCH, OPTIONS" });
        r.push(Header { name: "Access-Control-Allow-Headers", value: "*" });
        r.push(Header { name: "Access-Control-Allow-Credentials", value: "true" });
        r
    }
}

} // verus!
