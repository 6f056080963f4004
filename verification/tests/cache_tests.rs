use nss_keycloak::cache::{update_cache, Cache, User};
use nss_keycloak::passwd::Passwd;

fn entry(uid: u32, username: &str) -> User {
    User {
        uid,
        username: username.to_owned(),
        name: format!("{} Example", username),
        gid: 1000,
        home_dir: format!("/home/{}", username),
        shell: "/bin/bash".to_owned(),
    }
}

fn uids_are_unique(cache: &Cache) -> bool {
    for i in 0..cache.user.len() {
        for j in (i + 1)..cache.user.len() {
            if cache.user[i].uid == cache.user[j].uid {
                return false;
            }
        }
    }
    true
}

#[test]
fn merge_appends_new_entries() {
    let cache = Cache::default();
    let out = update_cache(cache, &vec![entry(1000, "alice"), entry(1001, "bob")]);
    assert_eq!(out.user.len(), 2);
    assert_eq!(out.user[0].username, "alice");
    assert_eq!(out.user[1].username, "bob");
}

#[test]
fn merge_replaces_matching_uid_wholesale() {
    let cache = Cache { user: vec![entry(1000, "alice"), entry(1001, "bob")] };
    let mut renamed = entry(1000, "alicia");
    renamed.shell = "/bin/sh".to_owned();
    let out = update_cache(cache, &vec![renamed]);
    assert_eq!(out.user.len(), 2);
    // The untouched entry keeps its place; the replaced one is re-appended.
    assert_eq!(out.user[0].username, "bob");
    assert_eq!(out.user[1].username, "alicia");
    assert_eq!(out.user[1].shell, "/bin/sh");
}

#[test]
fn merge_keeps_unrelated_entries() {
    let cache = Cache { user: vec![entry(1000, "alice"), entry(1001, "bob")] };
    let out = update_cache(cache, &vec![entry(1002, "carol")]);
    assert_eq!(out.user.len(), 3);
    assert_eq!(out.user[0].username, "alice");
    assert_eq!(out.user[1].username, "bob");
    assert_eq!(out.user[2].username, "carol");
}

#[test]
fn uids_stay_unique_over_write_sequences() {
    let mut cache = Cache::default();
    let batches: Vec<Vec<User>> = vec![
        vec![entry(1000, "alice"), entry(1001, "bob")],
        vec![entry(1000, "alicia"), entry(1002, "carol")],
        vec![entry(1002, "caroline"), entry(1002, "carola")],
        vec![entry(1003, "dave"), entry(1000, "alice")],
    ];
    for batch in &batches {
        cache = update_cache(cache, batch);
        assert!(uids_are_unique(&cache));
    }
    assert_eq!(cache.user.len(), 4);
}

#[test]
fn duplicate_uids_in_one_batch_keep_last() {
    let cache = Cache::default();
    let out = update_cache(
        cache,
        &vec![entry(1002, "caroline"), entry(1002, "carola")],
    );
    assert_eq!(out.user.len(), 1);
    assert_eq!(out.user[0].username, "carola");
}

#[test]
fn finds_by_uid_and_name() {
    let cache = Cache { user: vec![entry(1000, "alice"), entry(1001, "bob")] };
    assert_eq!(cache.find_by_uid(1001).map(|u| u.username.as_str()), Some("bob"));
    assert!(cache.find_by_uid(1050).is_none());
    assert_eq!(
        cache.find_by_name(&"alice".to_owned()).map(|u| u.uid),
        Some(1000)
    );
    assert!(cache.find_by_name(&"carol".to_owned()).is_none());
}

#[test]
fn converts_between_entry_and_passwd() {
    let p = Passwd {
        name: "alice".to_owned(),
        passwd: "x".to_owned(),
        uid: 1000,
        gid: 1000,
        gecos: "Alice Adams".to_owned(),
        dir: "/home/alice".to_owned(),
        shell: "/bin/bash".to_owned(),
    };
    let u = User::from_passwd(&p);
    assert_eq!(u.uid, 1000);
    assert_eq!(u.username, "alice");
    assert_eq!(u.name, "Alice Adams");
    assert_eq!(u.home_dir, "/home/alice");
    let back = u.to_passwd();
    assert_eq!(back, p);
}

#[test]
fn lists_all_cached_passwds() {
    let cache = Cache { user: vec![entry(1000, "alice"), entry(1001, "bob")] };
    let ps = cache.all_passwds();
    assert_eq!(ps.len(), 2);
    assert_eq!(ps[0].name, "alice");
    assert_eq!(ps[0].passwd, "x");
    assert_eq!(ps[1].uid, 1001);
}
