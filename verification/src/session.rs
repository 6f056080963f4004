//! Session material derived after a successful interactive authentication:
//! the identity answer of the userinfo endpoint and the environment entries
//! a session manager needs to adopt the user.

use vstd::prelude::*;

use crate::config::Config;
use crate::numeric::{dec_string_of, u32_to_string};
use crate::passwd::{home_directory, spec_home_directory};

verus! {

/// The userinfo endpoint's answer: the stable subject identifier, the
/// numeric-ID claim, and optional profile fields.
#[derive(Clone, Debug, PartialEq)]
pub struct UserInfoResponse {
    pub sub: String,
    pub uid: String,
    pub email_verified: Option<bool>,
    pub name: Option<String>,
    pub preferred_username: Option<String>,
    pub locale: Option<String>,
    pub given_name: Option<String>,
    pub family_name: Option<String>,
    pub email: Option<String>,
}

/// Arguments of the standalone credential-verification module: endpoint
/// URLs, client credentials, and the requested scopes.
#[derive(Clone, Debug, PartialEq)]
pub struct Args {
    pub token_url: String,
    pub userinfo_url: String,
    pub client_id: String,
    pub client_secret: String,
    pub scope: String,
    pub args: Vec<String>,
}

/// The environment entries published for the opened session.
#[derive(Clone, Debug, PartialEq)]
pub struct SessionEnv {
    pub uid_entry: String,
    pub gid_entry: String,
    pub home_entry: String,
}

/// Derives the session environment: the user's numeric-ID claim as
/// reported, the configured group ID, and the home path derived from the
/// configured root and the login name.
pub fn session_env(config: &Config, username: &String, userinfo: &UserInfoResponse) -> (env:
    SessionEnv)
    ensures
        env.uid_entry@ == "KEYCLOAK_UID="@ + userinfo.uid@,
        env.gid_entry@ == "KEYCLOAK_GID="@ + dec_string_of(config.group_id as nat),
        env.home_entry@ == "KEYCLOAK_HOME="@ + spec_home_directory(
            config.home_directory_parent@,
            username@,
        ),
{
    let mut uid_entry = "KEYCLOAK_UID=".to_owned();
    uid_entry.append(userinfo.uid.as_str());
    let mut gid_entry = "KEYCLOAK_GID=".to_owned();
    let gid_text = u32_to_string(config.group_id);
    gid_entry.append(gid_text.as_str());
    let mut home_entry = "KEYCLOAK_HOME=".to_owned();
    let home = home_directory(&config.home_directory_parent, username);
    home_entry.append(home.as_str());
    SessionEnv { uid_entry, gid_entry, home_entry }
}

} // verus!
