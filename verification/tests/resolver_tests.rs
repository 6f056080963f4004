use nss_keycloak::api_types::{Attribute, UserRepresentation};
use nss_keycloak::cache::{update_cache, Cache, User};
use nss_keycloak::config::Config;
use nss_keycloak::resolver::{
    get_all_entries, get_entry_by_name, get_entry_by_uid, next_action, step, uid_query_value,
    Action, ConfigOutcome, Event, Query, Response, State,
};

fn test_config() -> Config {
    let mut c = Config::default();
    c.start_uid = 1000;
    c.group_id = 1000;
    c
}

fn directory_user(username: &str, first: &str, last: &str, uid_attr: Option<&str>) ->
    UserRepresentation {
    let mut attributes = Vec::new();
    if let Some(v) = uid_attr {
        attributes.push(Attribute {
            key: "linux_uid".to_owned(),
            values: vec![v.to_owned()],
        });
    }
    UserRepresentation {
        id: format!("id-{}", username),
        username: username.to_owned(),
        first_name: first.to_owned(),
        last_name: last.to_owned(),
        attributes,
        rest: Vec::new(),
    }
}

fn cache_entry(uid: u32, username: &str) -> User {
    User {
        uid,
        username: username.to_owned(),
        name: format!("{} Example", username),
        gid: 1000,
        home_dir: format!("/home/{}", username),
        shell: "/bin/bash".to_owned(),
    }
}

/// Scenario: directory reachable, "carol" carries numeric-ID attribute
/// "1050"; the by-uid lookup returns her record and the cache gains an
/// entry for uid 1050.
#[test]
fn reachable_directory_resolves_by_uid_and_fills_cache() {
    let s = get_entry_by_uid(1050);
    let s = step(s, Event::ConfigRead(ConfigOutcome::Ready(test_config())));
    match next_action(&s) {
        Some(Action::QueryDirectory(Query::ByUidAttribute { attribute, uid })) => {
            assert_eq!(attribute, "linux_uid");
            assert_eq!(uid, 1050);
        }
        other => panic!("unexpected action: {:?}", other),
    }
    let carol = directory_user("carol", "Carol", "Chen", Some("1050"));
    let s = step(s, Event::DirectoryResult(Some(vec![carol])));
    match s {
        State::Done { response: Response::Entry(p), cache_update: Some(entries) } => {
            assert_eq!(p.uid, 1050);
            assert_eq!(p.name, "carol");
            assert_eq!(p.gecos, "Carol Chen");
            assert_eq!(p.dir, "/home/carol");
            let cache = update_cache(Cache::default(), &entries);
            assert_eq!(cache.find_by_uid(1050).map(|u| u.username.as_str()), Some("carol"));
        }
        other => panic!("unexpected state: {:?}", other),
    }
}

/// Scenario: directory unreachable; uid 1050 is served from the cache and
/// uid 1051 (absent from the cache) is answered "try again".
#[test]
fn unreachable_directory_serves_cached_uid() {
    let cache = Cache { user: vec![cache_entry(1050, "carol")] };

    let s = get_entry_by_uid(1050);
    let s = step(s, Event::ConfigRead(ConfigOutcome::Ready(test_config())));
    let s = step(s, Event::DirectoryResult(None));
    assert!(matches!(next_action(&s), Some(Action::ReadCache)));
    let s = step(s, Event::CacheRead(Some(cache.clone())));
    match s {
        State::Done { response: Response::Entry(p), cache_update: None } => {
            assert_eq!(p.uid, 1050);
            assert_eq!(p.name, "carol");
            assert_eq!(p.passwd, "x");
        }
        other => panic!("unexpected state: {:?}", other),
    }

    let s = get_entry_by_uid(1051);
    let s = step(s, Event::ConfigRead(ConfigOutcome::Ready(test_config())));
    let s = step(s, Event::DirectoryResult(None));
    let s = step(s, Event::CacheRead(Some(cache)));
    assert!(matches!(
        s,
        State::Done { response: Response::TryAgain, cache_update: None }
    ));
}

/// Scenario: "dave" exists without the numeric-ID attribute, uids 1000 and
/// 1001 are occupied locally, the floor is 1000: the scan picks 1002, the
/// write-back succeeds, and a second lookup (the directory now reporting
/// "1002") returns the same uid without another write-back.
#[test]
fn allocates_first_free_uid_and_writes_back_once() {
    let s = get_entry_by_name("dave".to_owned());
    let s = step(s, Event::ConfigRead(ConfigOutcome::Ready(test_config())));
    match next_action(&s) {
        Some(Action::QueryDirectory(Query::ByName { name })) => assert_eq!(name, "dave"),
        other => panic!("unexpected action: {:?}", other),
    }
    let dave = directory_user("dave", "Dave", "Diaz", None);
    let mut s = step(s, Event::DirectoryResult(Some(vec![dave])));

    // The occupancy scan: 1000 and 1001 taken, 1002 free.
    for (expected, taken) in [(1000u32, true), (1001, true), (1002, false)] {
        match next_action(&s) {
            Some(Action::ProbeUid(u)) => assert_eq!(u, expected),
            other => panic!("unexpected action: {:?}", other),
        }
        s = step(s, Event::UidProbe(taken));
    }

    // The write-back carries the whole record with the new attribute.
    let update = match next_action(&s) {
        Some(Action::WriteBack(update)) => update,
        other => panic!("unexpected action: {:?}", other),
    };
    assert_eq!(
        update.attribute_values(&"linux_uid".to_owned()),
        Some(&vec!["1002".to_owned()])
    );
    assert_eq!(update.username, "dave");

    let s = step(s, Event::WriteBackResult(true));
    let first = match s {
        State::Done { response: Response::Entry(p), cache_update: Some(_) } => p,
        other => panic!("unexpected state: {:?}", other),
    };
    assert_eq!(first.uid, 1002);

    // Second lookup: the directory now reports the attribute; the machine
    // finishes without probing or writing back.
    let s = get_entry_by_name("dave".to_owned());
    let s = step(s, Event::ConfigRead(ConfigOutcome::Ready(test_config())));
    let dave2 = directory_user("dave", "Dave", "Diaz", Some("1002"));
    let s = step(s, Event::DirectoryResult(Some(vec![dave2])));
    match s {
        State::Done { response: Response::Entry(p), cache_update: Some(_) } => {
            assert_eq!(p, first);
        }
        other => panic!("unexpected state (a write-back was requested?): {:?}", other),
    }
}

/// A failed write-back yields "try again" and no cache entry for the
/// subject.
#[test]
fn failed_write_back_leaves_no_cache_entry() {
    let s = get_entry_by_name("bob".to_owned());
    let s = step(s, Event::ConfigRead(ConfigOutcome::Ready(test_config())));
    let bob = directory_user("bob", "Bob", "Berg", None);
    let s = step(s, Event::DirectoryResult(Some(vec![bob])));
    let s = step(s, Event::UidProbe(false));
    assert!(matches!(next_action(&s), Some(Action::WriteBack(_))));
    let s = step(s, Event::WriteBackResult(false));
    assert!(matches!(
        s,
        State::Done { response: Response::TryAgain, cache_update: None }
    ));
}

/// Zero or several matches for a should-be-unique filter yield "not
/// found", never a record.
#[test]
fn ambiguous_directory_answers_are_not_found() {
    let s = get_entry_by_uid(1050);
    let s = step(s, Event::ConfigRead(ConfigOutcome::Ready(test_config())));
    let s = step(s, Event::DirectoryResult(Some(vec![])));
    assert!(matches!(
        s,
        State::Done { response: Response::NotFound, cache_update: None }
    ));

    let s = get_entry_by_name("carol".to_owned());
    let s = step(s, Event::ConfigRead(ConfigOutcome::Ready(test_config())));
    let twins = vec![
        directory_user("carol", "Carol", "Chen", Some("1050")),
        directory_user("carol", "Caroline", "Chase", Some("1051")),
    ];
    let s = step(s, Event::DirectoryResult(Some(twins)));
    assert!(matches!(
        s,
        State::Done { response: Response::NotFound, cache_update: None }
    ));
}

/// Two identical by-name lookups for a user who already carries a numeric
/// ID return identical records, and neither performs a write-back.
#[test]
fn by_name_with_known_uid_is_idempotent() {
    let run = || {
        let s = get_entry_by_name("alice".to_owned());
        let s = step(s, Event::ConfigRead(ConfigOutcome::Ready(test_config())));
        match next_action(&s) {
            Some(Action::QueryDirectory(Query::ByName { .. })) => {}
            other => panic!("unexpected action: {:?}", other),
        }
        let alice = directory_user("alice", "Alice", "Adams", Some("1050"));
        let s = step(s, Event::DirectoryResult(Some(vec![alice])));
        // The machine is done: no probe, no write-back was ever requested.
        assert!(next_action(&s).is_none());
        match s {
            State::Done { response: Response::Entry(p), cache_update: Some(_) } => p,
            other => panic!("unexpected state: {:?}", other),
        }
    };
    let first = run();
    let second = run();
    assert_eq!(first, second);
    assert_eq!(first.uid, 1050);
}

/// With the configuration unreadable, every cached numeric ID is served
/// from the cache.
#[test]
fn unreadable_config_falls_back_to_cache() {
    let cache = Cache {
        user: vec![cache_entry(1000, "alice"), cache_entry(1001, "bob")],
    };
    for (uid, name) in [(1000u32, "alice"), (1001, "bob")] {
        let s = get_entry_by_uid(uid);
        let s = step(s, Event::ConfigRead(ConfigOutcome::Unreadable));
        assert!(matches!(next_action(&s), Some(Action::ReadCache)));
        let s = step(s, Event::CacheRead(Some(cache.clone())));
        match s {
            State::Done { response: Response::Entry(p), cache_update: None } => {
                assert_eq!(p.uid, uid);
                assert_eq!(p.name, name);
            }
            other => panic!("unexpected state: {:?}", other),
        }
    }
}

/// By-name fallback to the cache mirrors the by-uid fallback.
#[test]
fn by_name_falls_back_to_cache() {
    let cache = Cache { user: vec![cache_entry(1000, "alice")] };
    let s = get_entry_by_name("alice".to_owned());
    let s = step(s, Event::ConfigRead(ConfigOutcome::Unreadable));
    let s = step(s, Event::CacheRead(Some(cache)));
    match s {
        State::Done { response: Response::Entry(p), cache_update: None } => {
            assert_eq!(p.name, "alice");
            assert_eq!(p.uid, 1000);
        }
        other => panic!("unexpected state: {:?}", other),
    }

    let s = get_entry_by_name("missing".to_owned());
    let s = step(s, Event::ConfigRead(ConfigOutcome::Unreadable));
    let s = step(s, Event::CacheRead(None));
    assert!(matches!(
        s,
        State::Done { response: Response::TryAgain, cache_update: None }
    ));
}

/// The bulk listing maps only records that already carry the numeric-ID
/// attribute and refreshes the cache with exactly those.
#[test]
fn list_all_excludes_records_without_numeric_id() {
    let s = get_all_entries();
    let s = step(s, Event::ConfigRead(ConfigOutcome::Ready(test_config())));
    match next_action(&s) {
        Some(Action::QueryDirectory(Query::All { max_results })) => {
            assert_eq!(max_results, 9999);
        }
        other => panic!("unexpected action: {:?}", other),
    }
    let users = vec![
        directory_user("alice", "Alice", "Adams", Some("1000")),
        directory_user("dave", "Dave", "Diaz", None),
        directory_user("bob", "Bob", "Berg", Some("1001")),
    ];
    let s = step(s, Event::DirectoryResult(Some(users)));
    match s {
        State::Done { response: Response::Entries(ps), cache_update: Some(entries) } => {
            assert_eq!(ps.len(), 2);
            assert_eq!(ps[0].name, "alice");
            assert_eq!(ps[0].uid, 1000);
            assert_eq!(ps[1].name, "bob");
            assert_eq!(ps[1].uid, 1001);
            assert_eq!(entries.len(), 2);
            assert_eq!(entries[0].uid, 1000);
            assert_eq!(entries[1].uid, 1001);
        }
        other => panic!("unexpected state: {:?}", other),
    }
}

/// The bulk listing falls back to the whole cache, and a cache miss is
/// transient.
#[test]
fn list_all_falls_back_to_whole_cache() {
    let cache = Cache {
        user: vec![cache_entry(1000, "alice"), cache_entry(1001, "bob")],
    };
    let s = get_all_entries();
    let s = step(s, Event::ConfigRead(ConfigOutcome::Unreadable));
    let s = step(s, Event::CacheRead(Some(cache)));
    match s {
        State::Done { response: Response::Entries(ps), cache_update: None } => {
            assert_eq!(ps.len(), 2);
            assert_eq!(ps[0].name, "alice");
            assert_eq!(ps[1].name, "bob");
        }
        other => panic!("unexpected state: {:?}", other),
    }

    let s = get_all_entries();
    let s = step(s, Event::ConfigRead(ConfigOutcome::Unreadable));
    let s = step(s, Event::CacheRead(None));
    assert!(matches!(
        s,
        State::Done { response: Response::TryAgain, cache_update: None }
    ));
}

/// A failed first-time configuration setup is transient.
#[test]
fn failed_config_setup_is_transient() {
    let s = get_all_entries();
    let s = step(s, Event::ConfigRead(ConfigOutcome::SetupFailed));
    assert!(matches!(
        s,
        State::Done { response: Response::TryAgain, cache_update: None }
    ));
}

/// The numeric-ID filter value is `attribute:uid`.
#[test]
fn uid_query_value_shape() {
    assert_eq!(uid_query_value(&"linux_uid".to_owned(), 1050), "linux_uid:1050");
}

/// The ID-space scan gives up (as transient) rather than wrapping around.
#[test]
fn exhausted_uid_space_is_transient() {
    let mut config = test_config();
    config.start_uid = u32::MAX;
    let s = get_entry_by_name("zed".to_owned());
    let s = step(s, Event::ConfigRead(ConfigOutcome::Ready(config)));
    let zed = directory_user("zed", "Zed", "Zee", None);
    let s = step(s, Event::DirectoryResult(Some(vec![zed])));
    assert!(matches!(next_action(&s), Some(Action::ProbeUid(u)) if u == u32::MAX));
    let s = step(s, Event::UidProbe(true));
    assert!(matches!(
        s,
        State::Done { response: Response::TryAgain, cache_update: None }
    ));
}
