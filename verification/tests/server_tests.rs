use smart_server::db::{insert_monitoring, insert_position, insert_tracker, Change, Database, StoreError};
use smart_server::model::{
    Claims, Coordinate, LoginRequest, Monitoring, MonitoringRequest, Position, PositionRequest,
    SignupRequest, SignupResponse, Tracker, TrackerInsert, Watcher, JWT,
};
use smart_server::responder::CustomResponse;
use smart_server::server::{
    addmonitoring, addposition, addtracker, deletemonitoring, getalerttrackers, history,
    history_clock_conflict, is_user_id_admin, login, setstatus, signup, signup_with_salt,
    ServerError,
};

fn coord(x: f32) -> Coordinate {
    Coordinate { bits: x.to_bits() }
}

fn jwt(id: i32) -> JWT {
    JWT { claims: Claims { subject_id: id, exp: 0 } }
}

fn signup_req(login: &str, password: &str) -> SignupRequest {
    SignupRequest { login: login.to_string(), password: password.to_string() }
}

fn login_req(login: &str, password: &str) -> LoginRequest {
    LoginRequest { login: login.to_string(), password: password.to_string() }
}

#[test]
fn signup_then_login_gives_the_new_id() {
    let mut db = Database::new();
    assert_eq!(signup(&mut db, signup_req("alice", "secret")), Ok(SignupResponse { user_id: 1, success: true }));
    assert_eq!(signup(&mut db, signup_req("bob", "hunter2")), Ok(SignupResponse { user_id: 2, success: true }));
    assert_eq!(login(&db, &login_req("alice", "secret")), Ok(Some(1)));
    assert_eq!(login(&db, &login_req("bob", "hunter2")), Ok(Some(2)));
    assert_eq!(login(&db, &login_req("alice", "hunter2")), Ok(None));
    assert_eq!(login(&db, &login_req("carol", "secret")), Ok(None));
}

#[test]
fn signup_stores_an_argon2_hash_and_a_random_salt() {
    let mut db = Database::new();
    signup(&mut db, signup_req("alice", "secret")).unwrap();
    signup(&mut db, signup_req("bob", "secret")).unwrap();
    let ws = db.watchers();
    assert!(ws[0].password.starts_with("$argon2id$v=19$m=19456,t=2,p=1$"));
    assert_ne!(ws[0].password, "secret");
    assert_eq!(ws[0].salt.len(), 32);
    assert_eq!(ws[1].salt.len(), 32);
    assert_ne!(ws[0].salt, ws[1].salt);
    assert_ne!(ws[0].password, ws[1].password);
    assert_eq!(db.take_journal(), vec![Change::WatcherAdded { id: 1 }, Change::WatcherAdded { id: 2 }]);
}

#[test]
fn signup_with_existing_login_is_refused() {
    let mut db = Database::new();
    signup(&mut db, signup_req("alice", "secret")).unwrap();
    assert_eq!(signup(&mut db, signup_req("alice", "other")), Ok(SignupResponse { user_id: 0, success: false }));
    assert_eq!(db.watchers().len(), 1);
    assert_eq!(login(&db, &login_req("alice", "other")), Ok(None));
}

#[test]
fn signup_with_given_salt_is_deterministic() {
    let mut a = Database::new();
    let mut b = Database::new();
    let salt = vec![7u8; 16];
    assert_eq!(signup_with_salt(&mut a, signup_req("u", "pw"), salt.clone()), Ok(SignupResponse { user_id: 1, success: true }));
    assert_eq!(signup_with_salt(&mut b, signup_req("u", "pw"), salt), Ok(SignupResponse { user_id: 1, success: true }));
    assert_eq!(a.watchers()[0].password, b.watchers()[0].password);
}

#[test]
fn hash_failure_with_short_salt() {
    let mut db = Database::new();
    assert_eq!(signup_with_salt(&mut db, signup_req("u", "pw"), vec![1, 2, 3]), Err(ServerError::HashFailure));
    assert!(db.watchers().is_empty());
    let w = Watcher { id: 3, login: "u".to_string(), password: "x".to_string(), salt: vec![1, 2] };
    let db = Database::from_rows(vec![w], vec![], vec![], vec![]).unwrap();
    assert_eq!(login(&db, &login_req("u", "pw")), Err(ServerError::HashFailure));
    assert_eq!(login(&db, &login_req("v", "pw")), Ok(None));
}

#[test]
fn signup_when_ids_are_exhausted() {
    let w = Watcher { id: i32::MAX, login: "u".to_string(), password: "x".to_string(), salt: vec![] };
    let mut db = Database::from_rows(vec![w], vec![], vec![], vec![]).unwrap();
    assert_eq!(signup(&mut db, signup_req("v", "pw")), Err(ServerError::Store(StoreError::IdsExhausted)));
    assert_eq!(db.watchers().len(), 1);
}

#[test]
fn admin_is_recognised_by_login() {
    let mut db = Database::new();
    signup(&mut db, signup_req("alice", "a")).unwrap();
    signup(&mut db, signup_req("admin", "b")).unwrap();
    assert!(!is_user_id_admin(&db, 1));
    assert!(is_user_id_admin(&db, 2));
    assert!(!is_user_id_admin(&db, 3));
}

fn history_setup() -> Database {
    let mut db = Database::new();
    signup(&mut db, signup_req("alice", "a")).unwrap();
    signup(&mut db, signup_req("admin", "b")).unwrap();
    signup(&mut db, signup_req("bob", "c")).unwrap();
    let t = insert_tracker(&mut db, coord(1.0), coord(1.0)).unwrap();
    insert_monitoring(&mut db, 1, t.id, "rex".to_string()).unwrap();
    for ts in [100i64, 6400, 6401, 9000, 10000] {
        insert_position(&mut db, coord(1.0), coord(2.0), t.id, ts).unwrap();
    }
    db
}

#[test]
fn history_keeps_the_last_hour() {
    let db = history_setup();
    let req = MonitoringRequest { watcher_id: 1, tracker_id: 1 };
    let stamps: Vec<i64> = history(&db, req, jwt(1), 10000).unwrap().iter().map(|p| p.timestamp).collect();
    assert_eq!(stamps, vec![6401, 9000, 10000]);
    let stamps: Vec<i64> = history(&db, req, jwt(2), 10000).unwrap().iter().map(|p| p.timestamp).collect();
    assert_eq!(stamps, vec![6401, 9000, 10000]);
}

#[test]
fn history_is_refused_to_others() {
    let db = history_setup();
    assert_eq!(history(&db, MonitoringRequest { watcher_id: 1, tracker_id: 1 }, jwt(3), 10000), Err(CustomResponse::Unauthorized));
    assert_eq!(history(&db, MonitoringRequest { watcher_id: 3, tracker_id: 1 }, jwt(3), 10000), Err(CustomResponse::Unauthorized));
    assert!(history(&db, MonitoringRequest { watcher_id: 5, tracker_id: 1 }, jwt(2), 10000).is_ok());
}

#[test]
fn history_clock_conflict_detected() {
    let db = history_setup();
    let req = MonitoringRequest { watcher_id: 1, tracker_id: 1 };
    assert!(!history_clock_conflict(&db, req, jwt(1), 10000));
    assert!(history_clock_conflict(&db, req, jwt(1), 9999));
    assert!(!history_clock_conflict(&db, req, jwt(3), 9999));
}

#[test]
fn addposition_checks_tracker_and_coordinates() {
    let mut db = Database::new();
    insert_tracker(&mut db, coord(0.0), coord(0.0)).unwrap();
    db.take_journal();
    let ok = PositionRequest { tracker_id: 1, latitude: coord(45.0), longitude: coord(-90.0) };
    assert_eq!(addposition(&mut db, ok, 500), Ok(CustomResponse::OK));
    assert_eq!(db.positions().to_vec(), vec![Position { latitude: coord(45.0), longitude: coord(-90.0), tracker_id: 1, timestamp: 500 }]);
    assert_eq!(addposition(&mut db, ok, 500), Err(ServerError::Store(StoreError::DuplicateKey)));
    let unknown = PositionRequest { tracker_id: 2, latitude: coord(45.0), longitude: coord(0.0) };
    assert_eq!(addposition(&mut db, unknown, 501), Ok(CustomResponse::Forbidden));
    let far = PositionRequest { tracker_id: 1, latitude: coord(90.5), longitude: coord(0.0) };
    assert_eq!(addposition(&mut db, far, 502), Ok(CustomResponse::Forbidden));
    let far = PositionRequest { tracker_id: 1, latitude: coord(0.0), longitude: coord(f32::NAN) };
    assert_eq!(addposition(&mut db, far, 503), Ok(CustomResponse::Forbidden));
    assert_eq!(db.positions().len(), 1);
    assert_eq!(db.take_journal(), vec![Change::PositionAdded { tracker_id: 1, timestamp: 500 }]);
}

fn monitoring(w: i32, t: i32, name: &str) -> Monitoring {
    Monitoring { watcher_id: w, tracker_id: t, tracker_name: name.to_string() }
}

#[test]
fn addmonitoring_outcomes() {
    let mut db = Database::new();
    addtracker(&mut db, TrackerInsert { latitude: coord(0.0), longitude: coord(0.0) }).unwrap();
    assert_eq!(addmonitoring(&mut db, monitoring(1, 1, "rex"), jwt(2)), CustomResponse::Unauthorized);
    assert_eq!(addmonitoring(&mut db, monitoring(1, 1, "rex"), jwt(1)), CustomResponse::OK);
    assert_eq!(addmonitoring(&mut db, monitoring(1, 1, "max"), jwt(1)), CustomResponse::Forbidden);
    assert_eq!(addmonitoring(&mut db, monitoring(1, 2, "max"), jwt(1)), CustomResponse::Forbidden);
    assert_eq!(db.monitorings().len(), 1);
    assert_eq!(db.monitorings()[0].tracker_name, "rex");
}

#[test]
fn deletemonitoring_outcomes() {
    let mut db = Database::new();
    addtracker(&mut db, TrackerInsert { latitude: coord(0.0), longitude: coord(0.0) }).unwrap();
    addmonitoring(&mut db, monitoring(1, 1, "rex"), jwt(1));
    let req = MonitoringRequest { watcher_id: 1, tracker_id: 1 };
    assert_eq!(deletemonitoring(&mut db, req, jwt(2)), CustomResponse::Unauthorized);
    assert_eq!(db.monitorings().len(), 1);
    assert_eq!(deletemonitoring(&mut db, req, jwt(1)), CustomResponse::OK);
    assert!(db.monitorings().is_empty());
    assert_eq!(deletemonitoring(&mut db, req, jwt(1)), CustomResponse::Unauthorized);
}

#[test]
fn add_then_delete_monitoring_restores_table() {
    let mut db = Database::new();
    addtracker(&mut db, TrackerInsert { latitude: coord(0.0), longitude: coord(0.0) }).unwrap();
    addtracker(&mut db, TrackerInsert { latitude: coord(0.0), longitude: coord(0.0) }).unwrap();
    addmonitoring(&mut db, monitoring(1, 1, "a"), jwt(1));
    addmonitoring(&mut db, monitoring(2, 2, "b"), jwt(2));
    let before: Vec<(i32, i32)> = db.monitorings().iter().map(|m| (m.watcher_id, m.tracker_id)).collect();
    addmonitoring(&mut db, monitoring(1, 2, "c"), jwt(1));
    deletemonitoring(&mut db, MonitoringRequest { watcher_id: 1, tracker_id: 2 }, jwt(1));
    let after: Vec<(i32, i32)> = db.monitorings().iter().map(|m| (m.watcher_id, m.tracker_id)).collect();
    assert_eq!(before, after);
}

#[test]
fn addtracker_returns_fresh_ids() {
    let mut db = Database::new();
    assert_eq!(addtracker(&mut db, TrackerInsert { latitude: coord(1.0), longitude: coord(2.0) }), Ok(1));
    assert_eq!(addtracker(&mut db, TrackerInsert { latitude: coord(1.0), longitude: coord(2.0) }), Ok(2));
    assert_eq!(db.trackers()[1], Tracker { id: 2, status: 0, latitude: coord(1.0), longitude: coord(2.0) });
    let t = Tracker { id: i32::MAX, status: 0, latitude: coord(0.0), longitude: coord(0.0) };
    let mut full = Database::from_rows(vec![], vec![t], vec![], vec![]).unwrap();
    assert_eq!(addtracker(&mut full, TrackerInsert { latitude: coord(1.0), longitude: coord(2.0) }), Err(ServerError::Store(StoreError::IdsExhausted)));
}

#[test]
fn setstatus_mails_every_follower() {
    let mut db = Database::new();
    signup(&mut db, signup_req("alice@x.org", "a")).unwrap();
    signup(&mut db, signup_req("bob@x.org", "b")).unwrap();
    addtracker(&mut db, TrackerInsert { latitude: coord(0.0), longitude: coord(0.0) }).unwrap();
    addmonitoring(&mut db, monitoring(1, 1, "Rex"), jwt(1));
    addmonitoring(&mut db, monitoring(2, 1, "Médor"), jwt(2));
    let data = Tracker { id: 1, status: 1, latitude: coord(0.0), longitude: coord(0.0) };
    let r = setstatus(&mut db, data).ok().unwrap();
    assert_eq!(r.response, CustomResponse::OK);
    let mails: Vec<(String, String)> = r.mails.iter().map(|m| (m.address.clone(), m.message.clone())).collect();
    assert_eq!(
        mails,
        vec![
            ("alice@x.org".to_string(), "Rex a quitté la zone sûre.".to_string()),
            ("bob@x.org".to_string(), "Médor a quitté la zone sûre.".to_string()),
        ]
    );
    let alerts: Vec<i32> = getalerttrackers(&db, jwt(1)).iter().map(|t| t.id).collect();
    assert_eq!(alerts, vec![1]);
    let back = Tracker { id: 1, status: 0, latitude: coord(0.0), longitude: coord(0.0) };
    let r = setstatus(&mut db, back).ok().unwrap();
    assert_eq!(r.mails[0].message, "Rex est revenu dans la zone sûre.");
    assert!(getalerttrackers(&db, jwt(1)).is_empty());
}

#[test]
fn setstatus_unknown_tracker_is_forbidden() {
    let mut db = Database::new();
    let data = Tracker { id: 4, status: 1, latitude: coord(0.0), longitude: coord(0.0) };
    let r = setstatus(&mut db, data).ok().unwrap();
    assert_eq!(r.response, CustomResponse::Forbidden);
    assert!(r.mails.is_empty());
    assert!(db.take_journal().is_empty());
}

#[test]
fn setstatus_stops_at_unknown_watcher() {
    let t = Tracker { id: 1, status: 0, latitude: coord(0.0), longitude: coord(0.0) };
    let w = Watcher { id: 1, login: "a@x".to_string(), password: "p".to_string(), salt: vec![] };
    let ms = vec![monitoring(1, 1, "A"), monitoring(9, 1, "B"), monitoring(1, 2, "C")];
    let mut db = Database::from_rows(vec![w], vec![t], ms, vec![]).unwrap();
    let r = setstatus(&mut db, Tracker { id: 1, status: 1, latitude: coord(0.0), longitude: coord(0.0) });
    let r = match r {
        Ok(_) => panic!("the missing watcher was not reported"),
        Err(abort) => abort,
    };
    assert_eq!(r.watcher_id, 9);
    assert_eq!(r.mails.len(), 1);
    assert_eq!(r.mails[0].address, "a@x");
    assert_eq!(db.take_journal(), vec![Change::TrackerStatusSet { tracker_id: 1, status: 1 }]);
}

#[test]
fn login_with_another_password_is_refused() {
    let mut db = Database::new();
    signup(&mut db, signup_req("alice", "secret")).unwrap();
    assert_eq!(login(&db, &login_req("alice", "Secret")), Ok(None));
    assert_eq!(login(&db, &login_req("alice", "")), Ok(None));
    assert_eq!(login(&db, &login_req("alice", "secret")), Ok(Some(1)));
}
