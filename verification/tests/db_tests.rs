use smart_server::db::{
    delete_monitoring, get_alert_trackers, get_monitorings, get_position, get_watcher,
    insert_monitoring, insert_position, insert_tracker, insert_watcher, monitoring_exists,
    tracker_exists, update_tracker_status, watcher_exists, Change, Database, StoreError,
};
use smart_server::model::{Coordinate, Monitoring, Position, Tracker, Watcher, WatcherInsert};

fn coord(x: f32) -> Coordinate {
    Coordinate { bits: x.to_bits() }
}

fn watcher_insert(login: &str) -> WatcherInsert {
    WatcherInsert { login: login.to_string(), password: "h".to_string(), salt: vec![1, 2, 3] }
}

#[test]
fn new_database_is_empty() {
    let mut db = Database::new();
    assert!(db.watchers().is_empty());
    assert!(db.trackers().is_empty());
    assert!(db.monitorings().is_empty());
    assert!(db.positions().is_empty());
    assert!(db.take_journal().is_empty());
}

#[test]
fn watchers_receive_consecutive_ids() {
    let mut db = Database::new();
    assert_eq!(insert_watcher(&mut db, watcher_insert("a")), Ok(()));
    assert_eq!(insert_watcher(&mut db, watcher_insert("b")), Ok(()));
    let ids: Vec<i32> = db.watchers().iter().map(|w| w.id).collect();
    assert_eq!(ids, vec![1, 2]);
    assert!(watcher_exists(&db, "a".to_string()));
    assert!(!watcher_exists(&db, "c".to_string()));
    assert_eq!(db.take_journal(), vec![Change::WatcherAdded { id: 1 }, Change::WatcherAdded { id: 2 }]);
    assert!(db.take_journal().is_empty());
    assert_eq!(db.watchers().len(), 2);
}

#[test]
fn ids_follow_the_largest_in_use() {
    let w = Watcher { id: 41, login: "x".to_string(), password: "p".to_string(), salt: vec![] };
    let t = Tracker { id: 9, status: 0, latitude: coord(1.0), longitude: coord(2.0) };
    let mut db = Database::from_rows(vec![w], vec![t], vec![], vec![]).unwrap();
    assert_eq!(insert_watcher(&mut db, watcher_insert("y")), Ok(()));
    assert_eq!(db.watchers()[1].id, 42);
    let t2 = insert_tracker(&mut db, coord(3.0), coord(4.0)).unwrap();
    assert_eq!(t2, Tracker { id: 10, status: 0, latitude: coord(3.0), longitude: coord(4.0) });
    assert!(tracker_exists(&db, 10));
    assert!(!tracker_exists(&db, 11));
}

#[test]
fn ids_exhausted_is_refused() {
    let t = Tracker { id: i32::MAX, status: 0, latitude: coord(1.0), longitude: coord(2.0) };
    let w = Watcher { id: i32::MAX, login: "x".to_string(), password: "p".to_string(), salt: vec![] };
    let mut db = Database::from_rows(vec![w], vec![t], vec![], vec![]).unwrap();
    assert_eq!(insert_tracker(&mut db, coord(3.0), coord(4.0)), Err(StoreError::IdsExhausted));
    assert_eq!(insert_watcher(&mut db, watcher_insert("y")), Err(StoreError::IdsExhausted));
    assert_eq!(db.trackers().len(), 1);
    assert_eq!(db.watchers().len(), 1);
    assert!(db.take_journal().is_empty());
}

#[test]
fn from_rows_refuses_duplicate_keys() {
    let w = |id: i32| Watcher { id, login: "x".to_string(), password: "p".to_string(), salt: vec![] };
    assert!(Database::from_rows(vec![w(1), w(1)], vec![], vec![], vec![]).is_none());
    let t = |id: i32| Tracker { id, status: 0, latitude: coord(0.0), longitude: coord(0.0) };
    assert!(Database::from_rows(vec![], vec![t(3), t(4), t(3)], vec![], vec![]).is_none());
    let m = |w: i32, t: i32| Monitoring { watcher_id: w, tracker_id: t, tracker_name: "n".to_string() };
    assert!(Database::from_rows(vec![], vec![], vec![m(1, 2), m(1, 2)], vec![]).is_none());
    assert!(Database::from_rows(vec![], vec![], vec![m(1, 2), m(2, 1)], vec![]).is_some());
    let p = |t: i32, ts: i64| Position { latitude: coord(0.0), longitude: coord(0.0), tracker_id: t, timestamp: ts };
    assert!(Database::from_rows(vec![], vec![], vec![], vec![p(1, 5), p(1, 5)]).is_none());
    assert!(Database::from_rows(vec![], vec![], vec![], vec![p(1, 5), p(2, 5), p(1, 6)]).is_some());
}

#[test]
fn monitorings_are_recorded_once_and_removed() {
    let mut db = Database::new();
    assert_eq!(insert_monitoring(&mut db, 1, 2, "dog".to_string()), Ok(()));
    assert_eq!(insert_monitoring(&mut db, 1, 2, "cat".to_string()), Err(StoreError::DuplicateKey));
    assert_eq!(insert_monitoring(&mut db, 3, 2, "cat".to_string()), Ok(()));
    assert!(monitoring_exists(&db, 1, 2));
    assert!(!monitoring_exists(&db, 2, 1));
    let ms = get_monitorings(&db, 2);
    let names: Vec<(i32, String)> = ms.iter().map(|m| (m.watcher_id, m.tracker_name.clone())).collect();
    assert_eq!(names, vec![(1, "dog".to_string()), (3, "cat".to_string())]);
    delete_monitoring(&mut db, 1, 2);
    assert!(!monitoring_exists(&db, 1, 2));
    assert!(monitoring_exists(&db, 3, 2));
    delete_monitoring(&mut db, 9, 9);
    assert_eq!(db.monitorings().len(), 1);
    assert_eq!(
        db.take_journal(),
        vec![
            Change::MonitoringAdded { watcher_id: 1, tracker_id: 2 },
            Change::MonitoringAdded { watcher_id: 3, tracker_id: 2 },
            Change::MonitoringRemoved { watcher_id: 1, tracker_id: 2 },
            Change::MonitoringRemoved { watcher_id: 9, tracker_id: 9 },
        ]
    );
}

#[test]
fn positions_are_listed_per_tracker_in_order() {
    let mut db = Database::new();
    assert_eq!(insert_position(&mut db, coord(1.0), coord(2.0), 5, 100), Ok(()));
    assert_eq!(insert_position(&mut db, coord(3.0), coord(4.0), 6, 100), Ok(()));
    assert_eq!(insert_position(&mut db, coord(5.0), coord(6.0), 5, 101), Ok(()));
    assert_eq!(insert_position(&mut db, coord(7.0), coord(8.0), 5, 100), Err(StoreError::DuplicateKey));
    let ps = get_position(&db, 5);
    assert_eq!(
        ps,
        vec![
            Position { latitude: coord(1.0), longitude: coord(2.0), tracker_id: 5, timestamp: 100 },
            Position { latitude: coord(5.0), longitude: coord(6.0), tracker_id: 5, timestamp: 101 },
        ]
    );
    assert!(get_position(&db, 7).is_empty());
}

#[test]
fn status_updates_drive_alerts() {
    let mut db = Database::new();
    let t1 = insert_tracker(&mut db, coord(0.0), coord(0.0)).unwrap();
    let t2 = insert_tracker(&mut db, coord(0.0), coord(0.0)).unwrap();
    insert_monitoring(&mut db, 1, t1.id, "a".to_string()).unwrap();
    insert_monitoring(&mut db, 1, t2.id, "b".to_string()).unwrap();
    insert_monitoring(&mut db, 2, t2.id, "b".to_string()).unwrap();
    assert!(get_alert_trackers(&db, 1).is_empty());
    update_tracker_status(&mut db, t2.id, 1);
    let alerts: Vec<i32> = get_alert_trackers(&db, 1).iter().map(|t| t.id).collect();
    assert_eq!(alerts, vec![t2.id]);
    assert_eq!(get_alert_trackers(&db, 2).len(), 1);
    assert!(get_alert_trackers(&db, 3).is_empty());
    update_tracker_status(&mut db, t1.id, 1);
    let alerts: Vec<i32> = get_alert_trackers(&db, 1).iter().map(|t| t.id).collect();
    assert_eq!(alerts, vec![t1.id, t2.id]);
    update_tracker_status(&mut db, t2.id, 0);
    let alerts: Vec<i32> = get_alert_trackers(&db, 1).iter().map(|t| t.id).collect();
    assert_eq!(alerts, vec![t1.id]);
    assert_eq!(db.trackers()[1].status, 0);
}

#[test]
fn get_watcher_copies_the_row() {
    let mut db = Database::new();
    insert_watcher(&mut db, watcher_insert("ann")).unwrap();
    let w = get_watcher(&db, 1).unwrap();
    assert_eq!((w.id, w.login.as_str(), w.password.as_str(), w.salt.clone()), (1, "ann", "h", vec![1, 2, 3]));
    assert!(get_watcher(&db, 2).is_none());
}
