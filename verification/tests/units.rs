use nss_keycloak::api_types::{Attribute, UserRepresentation};
use nss_keycloak::config::Config;
use nss_keycloak::numeric::{parse_u32, u32_to_string};
use nss_keycloak::session::{session_env, UserInfoResponse};
use nss_keycloak::token::{access_token, TokenResponse};

fn plain_user(username: &str, first: &str, last: &str) -> UserRepresentation {
    UserRepresentation {
        id: "11111111-2222-3333-4444-555555555555".to_owned(),
        username: username.to_owned(),
        first_name: first.to_owned(),
        last_name: last.to_owned(),
        attributes: Vec::new(),
        rest: Vec::new(),
    }
}

#[test]
fn renders_zero() {
    assert_eq!(u32_to_string(0), "0");
}

#[test]
fn renders_multi_digit() {
    assert_eq!(u32_to_string(1002), "1002");
    assert_eq!(u32_to_string(4294967295), "4294967295");
}

#[test]
fn parses_plain_decimal() {
    assert_eq!(parse_u32("1002"), Some(1002));
    assert_eq!(parse_u32("0"), Some(0));
    assert_eq!(parse_u32("4294967295"), Some(4294967295));
}

#[test]
fn parse_rejects_junk() {
    assert_eq!(parse_u32(""), None);
    assert_eq!(parse_u32("10a2"), None);
    assert_eq!(parse_u32("-5"), None);
    assert_eq!(parse_u32(" 12"), None);
}

#[test]
fn parse_rejects_overflow() {
    assert_eq!(parse_u32("4294967296"), None);
    assert_eq!(parse_u32("99999999999999999999"), None);
}

#[test]
fn parse_round_trip() {
    for n in [0u32, 1, 9, 10, 999, 1000, 65536, u32::MAX] {
        assert_eq!(parse_u32(&u32_to_string(n)), Some(n));
    }
}

#[test]
fn default_config_values() {
    let c = Config::default();
    assert_eq!(c.realm, "master");
    assert_eq!(c.uid_attribute_id, "linux_uid");
    assert_eq!(c.start_uid, 1000);
    assert_eq!(c.group_id, 1000);
    assert_eq!(c.home_directory_parent, "/home");
    assert_eq!(c.shell, "/bin/bash");
    assert_eq!(c.client_id, "");
    assert_eq!(c.client_secret, "");
    assert_eq!(
        c.token_url,
        "https://example.com/realms/master/protocol/openid-connect/token"
    );
}

#[test]
fn maps_identity_to_passwd() {
    let mut config = Config::default();
    config.group_id = 4321;
    config.shell = "/bin/zsh".to_owned();
    let user = plain_user("carol", "Carol", "Chen");
    let p = user.to_passwd(&config, 1050);
    assert_eq!(p.uid, 1050);
    assert_eq!(p.name, "carol");
    assert_eq!(p.gecos, "Carol Chen");
    assert_eq!(p.gid, 4321);
    assert_eq!(p.dir, "/home/carol");
    assert_eq!(p.shell, "/bin/zsh");
    assert_eq!(p.passwd, "x");
}

#[test]
fn attribute_lookup_and_replace() {
    let mut user = plain_user("erin", "Erin", "Vogel");
    user.attributes.push(Attribute {
        key: "locale".to_owned(),
        values: vec!["de".to_owned()],
    });
    assert!(user.has_attribute(&"locale".to_owned()));
    assert!(!user.has_attribute(&"linux_uid".to_owned()));

    let with_uid = user.with_attribute(&"linux_uid".to_owned(), vec!["1100".to_owned()]);
    assert_eq!(with_uid.attributes.len(), 2);
    assert_eq!(
        with_uid.attribute_values(&"linux_uid".to_owned()),
        Some(&vec!["1100".to_owned()])
    );
    assert_eq!(
        with_uid.attribute_values(&"locale".to_owned()),
        Some(&vec!["de".to_owned()])
    );

    let replaced = with_uid.with_attribute(&"linux_uid".to_owned(), vec!["1101".to_owned()]);
    assert_eq!(replaced.attributes.len(), 2);
    assert_eq!(
        replaced.attribute_values(&"linux_uid".to_owned()),
        Some(&vec!["1101".to_owned()])
    );
    // The replacement stays in place, ahead of nothing it should reorder.
    assert_eq!(replaced.attributes[1].key, "linux_uid");
    assert_eq!(replaced.attributes[0].key, "locale");
}

#[test]
fn token_success_grants_access_token() {
    let granted = TokenResponse::Success {
        access_token: "SECRET-REDACTED".to_owned(),
        expires_in: 300,
        refresh_token: None,
        scope: "openid".to_owned(),
    };
    assert_eq!(access_token(granted), Some("SECRET-REDACTED".to_owned()));
}

#[test]
fn token_failure_grants_nothing() {
    let denied = TokenResponse::Failure {
        error: "invalid_client".to_owned(),
        error_description: Some("unknown client".to_owned()),
    };
    assert_eq!(access_token(denied), None);
}

#[test]
fn session_env_entries() {
    let mut config = Config::default();
    config.group_id = 1000;
    let userinfo = UserInfoResponse {
        sub: "11111111-2222-3333-4444-555555555555".to_owned(),
        uid: "1050".to_owned(),
        email_verified: None,
        name: None,
        preferred_username: None,
        locale: None,
        given_name: None,
        family_name: None,
        email: None,
    };
    let env = session_env(&config, &"carol".to_owned(), &userinfo);
    assert_eq!(env.uid_entry, "KEYCLOAK_UID=1050");
    assert_eq!(env.gid_entry, "KEYCLOAK_GID=1000");
    assert_eq!(env.home_entry, "KEYCLOAK_HOME=/home/carol");
}
