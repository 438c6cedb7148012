use aggregate_root::cli::{Commands, Request};
use aggregate_root::domain::{RepoError, Timestamp, UserAggregateRepository, UserAggregateRoot};
use aggregate_root::dtos::user_dtos;
use aggregate_root::handler::{create_user, fetch_user_by_id, CreateUser, FetchUserByIdQuery};
use aggregate_root::rows::{reconstruct_users, FetchUserByIdRow};
use aggregate_root::session::{CreateAction, CreateEvent, CreatePhase, CreateSession};
use aggregate_root::store::MemoryStore;

fn row(user_id: i64, user_name: &str, department: Option<(i64, &str)>) -> FetchUserByIdRow {
    FetchUserByIdRow {
        user_id,
        user_name: user_name.to_string(),
        user_updated_datetime: Timestamp { micros: 10 },
        user_created_datetime: Timestamp { micros: 10 },
        department_id: department.map(|d| d.0),
        department_name: department.map(|d| d.1.to_string()),
        department_updated_datetime: department.map(|_| Timestamp { micros: 20 }),
        department_created_datetime: department.map(|_| Timestamp { micros: 20 }),
    }
}

fn department_names(u: &UserAggregateRoot) -> Vec<String> {
    u.departments.iter().map(|d| d.name.clone()).collect()
}

#[test]
fn integration_test() {
    let mut repo = MemoryStore::new();
    let id = repo
        .create_user("user1".into(), Some("dep1".into()))
        .expect("user creation failed");

    match fetch_user_by_id(repo, FetchUserByIdQuery { user_id: id }) {
        Ok(values) => {
            assert_eq!(1, values.len());
            assert_eq!(1, values[0].id);
            assert_eq!("user1", values[0].name.as_str());
        }
        Err(_) => {
            assert!(false)
        }
    };
}

#[test]
fn create_then_fetch_gives_user_and_department() {
    let mut store = MemoryStore::new();
    let id = store
        .create_user_at("user1".to_string(), Some("dep1".to_string()), Timestamp { micros: 5 })
        .unwrap();
    assert_eq!(id, 1);
    let found = store.find_by_id(1);
    assert_eq!(found.len(), 1);
    assert_eq!(found[0].id, 1);
    assert_eq!(found[0].name, "user1");
    assert_eq!(found[0].created_datetime, Timestamp { micros: 5 });
    assert_eq!(found[0].updated_datetime, found[0].created_datetime);
    assert_eq!(found[0].departments.len(), 1);
    assert_eq!(found[0].departments[0].name, "dep1");
    assert_eq!(found[0].departments[0].user_id, 1);
    assert_eq!(found[0].departments[0].id, 1);
}

#[test]
fn duplicate_user_name_is_rejected_and_nothing_written() {
    let mut store = MemoryStore::new();
    assert_eq!(store.create("user1".to_string(), None), Ok(1));
    assert_eq!(
        store.create("user1".to_string(), Some("dep2".to_string())),
        Err(RepoError::Duplicate)
    );
    assert_eq!(store.user_count(), 1);
    assert_eq!(store.department_count(), 1);
}

#[test]
fn duplicate_department_name_under_other_user_is_rejected() {
    let mut store = MemoryStore::new();
    assert_eq!(store.create("user1".to_string(), Some("dep1".to_string())), Ok(1));
    assert_eq!(
        store.create("user2".to_string(), Some("dep1".to_string())),
        Err(RepoError::Duplicate)
    );
    assert_eq!(store.user_count(), 1);
    assert_eq!(store.department_count(), 1);
    assert_eq!(store.create("user2".to_string(), Some("dep2".to_string())), Ok(2));
    assert_eq!(store.user_count(), 2);
}

#[test]
fn create_without_department_keeps_an_unnamed_department_row() {
    let mut store = MemoryStore::new();
    assert_eq!(store.create("user1".to_string(), None), Ok(1));
    assert_eq!(store.create("user2".to_string(), None), Ok(2));
    assert_eq!(store.department_count(), 2);
    let found = store.find_by_id(2);
    assert_eq!(found.len(), 1);
    assert_eq!(found[0].name, "user2");
    assert_eq!(department_names(&found[0]), vec!["".to_string()]);
    assert_eq!(found[0].departments[0].user_id, 2);
}

#[test]
fn fetch_unknown_identity_on_empty_store_is_empty() {
    let store = MemoryStore::new();
    assert!(store.find_by_id(999).is_empty());
    let result = fetch_user_by_id(MemoryStore::new(), FetchUserByIdQuery { user_id: 999 });
    assert_eq!(result.map(|v| v.len()), Ok(0));
}

#[test]
fn create_handler_returns_identity() {
    let store = MemoryStore::new();
    let id = create_user(
        store,
        CreateUser { user_name: "user1".to_string(), department_name: Some("dep1".to_string()) },
    );
    assert_eq!(id, Ok(1));
}

#[test]
fn reconstruct_folds_rows_per_identity_in_first_seen_order() {
    let rows = vec![
        row(7, "a", Some((1, "d1"))),
        row(3, "b", None),
        row(7, "a", Some((2, "d2"))),
        row(7, "a", None),
        row(9, "c", Some((4, "d4"))),
    ];
    let users = reconstruct_users(&rows);
    assert_eq!(users.len(), 3);
    assert_eq!(users.iter().map(|u| u.id).collect::<Vec<_>>(), vec![7, 3, 9]);
    assert_eq!(department_names(&users[0]), vec!["d1".to_string(), "d2".to_string()]);
    assert_eq!(users[0].departments[1].id, 2);
    assert_eq!(users[0].departments[1].user_id, 7);
    assert_eq!(users[0].departments[1].created_datetime, Timestamp { micros: 20 });
    assert!(users[1].departments.is_empty());
    assert_eq!(users[1].name, "b");
    assert_eq!(department_names(&users[2]), vec!["d4".to_string()]);
}

#[test]
fn reconstruct_null_department_gives_empty_collection() {
    let users = reconstruct_users(&vec![row(1, "solo", None)]);
    assert_eq!(users.len(), 1);
    assert_eq!(users[0].name, "solo");
    assert!(users[0].departments.is_empty());
    assert!(reconstruct_users(&vec![]).is_empty());
}

#[test]
fn reconstruct_missing_department_fields_fall_back() {
    let mut r = row(1, "u", Some((5, "x")));
    r.department_name = None;
    r.department_updated_datetime = None;
    let users = reconstruct_users(&vec![r]);
    assert_eq!(users[0].departments[0].name, "");
    assert_eq!(users[0].departments[0].updated_datetime, Timestamp::epoch());
    assert_eq!(users[0].departments[0].created_datetime, Timestamp { micros: 20 });
}

#[test]
fn dtos_copy_aggregates() {
    let users = reconstruct_users(&vec![row(2, "n", Some((8, "d")))]);
    let dtos = user_dtos(&users);
    assert_eq!(dtos.len(), 1);
    assert_eq!(dtos[0].id, 2);
    assert_eq!(dtos[0].name, "n");
    assert_eq!(dtos[0].departments[0].id, 8);
    assert_eq!(dtos[0].departments[0].name, "d");
}

#[test]
fn commands_become_requests() {
    match (Commands::Create { name: "n".to_string(), department: Some("d".to_string()) }).into_request() {
        Request::Create(c) => {
            assert_eq!(c.user_name, "n");
            assert_eq!(c.department_name, Some("d".to_string()));
        }
        _ => panic!("expected a create request"),
    }
    match (Commands::Fetch { id: 4 }).into_request() {
        Request::Fetch(q) => assert_eq!(q.user_id, 4),
        _ => panic!("expected a fetch request"),
    }
}

#[test]
fn session_creates_after_both_checks() {
    let mut s = CreateSession::new(true);
    assert_eq!(s.step(CreateEvent::Begin), CreateAction::LookUpUserName);
    assert_eq!(s.step(CreateEvent::Found(false)), CreateAction::LookUpDepartmentName);
    assert_eq!(s.step(CreateEvent::Found(false)), CreateAction::InsertInTransaction);
    assert_eq!(s.step(CreateEvent::Inserted(3)), CreateAction::Created(3));
    assert_eq!(s.phase, CreatePhase::Finished);
}

#[test]
fn session_skips_department_check_without_name() {
    let mut s = CreateSession::new(false);
    assert_eq!(s.step(CreateEvent::Begin), CreateAction::LookUpUserName);
    assert_eq!(s.step(CreateEvent::Found(false)), CreateAction::InsertInTransaction);
}

#[test]
fn session_stops_on_duplicates_and_failures() {
    let mut s = CreateSession::new(true);
    s.step(CreateEvent::Begin);
    assert_eq!(s.step(CreateEvent::Found(true)), CreateAction::Rejected(RepoError::Duplicate));
    let mut s = CreateSession::new(true);
    s.step(CreateEvent::Begin);
    s.step(CreateEvent::Found(false));
    assert_eq!(s.step(CreateEvent::Found(true)), CreateAction::Rejected(RepoError::Duplicate));
    let mut s = CreateSession::new(false);
    s.step(CreateEvent::Begin);
    s.step(CreateEvent::Found(false));
    assert_eq!(s.step(CreateEvent::Failed), CreateAction::Rejected(RepoError::Storage));
    let mut s = CreateSession::new(false);
    assert_eq!(s.step(CreateEvent::Inserted(1)), CreateAction::Rejected(RepoError::Storage));
}

#[test]
fn create_stamps_rows_with_store_clock() {
    let mut store = MemoryStore::new();
    store.set_clock(Timestamp { micros: 42 });
    assert_eq!(store.create("user1".to_string(), Some("dep1".to_string())), Ok(1));
    let found = store.find_by_id(1);
    assert_eq!(found[0].created_datetime, Timestamp { micros: 42 });
    assert_eq!(found[0].updated_datetime, Timestamp { micros: 42 });
    assert_eq!(found[0].departments[0].created_datetime, Timestamp { micros: 42 });
}
