//! The subsystem's configuration: an immutable snapshot per operation.
//!
//! Reading and creating the configuration file is the caller's concern; the
//! resolver receives a snapshot (or learns that none could be read) as an
//! event.

use vstd::prelude::*;

verus! {

/// One configuration snapshot. The resolver never mutates it.
#[derive(Clone, Debug)]
pub struct Config {
    pub token_url: String,
    pub userinfo_url: String,
    pub api_url: String,
    pub realm: String,
    /// Name of the directory attribute that carries a user's numeric ID.
    pub uid_attribute_id: String,
    pub uid_token_claim: String,
    pub client_id: String,
    pub client_secret: String,
    pub scopes: String,
    /// Lowest numeric ID considered for allocation.
    pub start_uid: u32,
    /// Numeric group ID given to every resolved record.
    pub group_id: u32,
    /// Every user's home directory is `home_directory_parent/login_name`.
    pub home_directory_parent: String,
    pub shell: String,
}

#[verifier::ext_equal]
pub struct ConfigView {
    pub token_url: Seq<char>,
    pub userinfo_url: Seq<char>,
    pub api_url: Seq<char>,
    pub realm: Seq<char>,
    pub uid_attribute_id: Seq<char>,
    pub uid_token_claim: Seq<char>,
    pub client_id: Seq<char>,
    pub client_secret: Seq<char>,
    pub scopes: Seq<char>,
    pub start_uid: u32,
    pub group_id: u32,
    pub home_directory_parent: Seq<char>,
    pub shell: Seq<char>,
}

impl View for Config {
    type V = ConfigView;

    open spec fn view(&self) -> ConfigView {
        ConfigView {
            token_url: self.token_url@,
            userinfo_url: self.userinfo_url@,
            api_url: self.api_url@,
            realm: self.realm@,
            uid_attribute_id: self.uid_attribute_id@,
            uid_token_claim: self.uid_token_claim@,
            client_id: self.client_id@,
            client_secret: self.client_secret@,
            scopes: self.scopes@,
            start_uid: self.start_uid,
            group_id: self.group_id,
            home_directory_parent: self.home_directory_parent@,
            shell: self.shell@,
        }
    }
}

impl DeepView for Config {
    type V = ConfigView;

    open spec fn deep_view(&self) -> ConfigView {
        self.view()
    }
}

/// The snapshot written into a freshly created configuration file.
pub open spec fn spec_default_config() -> ConfigView {
    ConfigView {
        token_url: "https://example.com/realms/master/protocol/openid-connect/token"@,
        userinfo_url: "https://example.com/realms/master/protocol/openid-connect/userinfo"@,
        api_url: "https://example.com/admin"@,
        realm: "master"@,
        uid_attribute_id: "linux_uid"@,
        uid_token_claim: "uid"@,
        client_id: Seq::<char>::empty(),
        client_secret: Seq::<char>::empty(),
        scopes: "openid profile email uid"@,
        start_uid: 1000,
        group_id: 1000,
        home_directory_parent: "/home"@,
        shell: "/bin/bash"@,
    }
}

impl Default for Config {
    /// The placeholder configuration written when none exists yet: example
    /// endpoint URLs, empty credentials, and conventional POSIX defaults.
    fn default() -> (c: Config)
        ensures
            c@ =~= spec_default_config(),
    {
        Config {
            token_url: "https://example.com/realms/master/protocol/openid-connect/token"
                .to_owned(),
            userinfo_url: "https://example.com/realms/master/protocol/openid-connect/userinfo"
                .to_owned(),
            api_url: "https://example.com/admin".to_owned(),
            realm: "master".to_owned(),
            uid_attribute_id: "linux_uid".to_owned(),
            uid_token_claim: "uid".to_owned(),
            client_id: String::new(),
            client_secret: String::new(),
            scopes: "openid profile email uid".to_owned(),
            start_uid: 1000,
            group_id: 1000,
            home_directory_parent: "/home".to_owned(),
            shell: "/bin/bash".to_owned(),
        }
    }
}

impl Config {
    /// An identical snapshot, with a contract (the derived `Clone` carries
    /// none).
    pub fn duplicate(&self) -> (c: Config)
        ensures
            c@ =~= self@,
    {
        Config {
            token_url: self.token_url.clone(),
            userinfo_url: self.userinfo_url.clone(),
            api_url: self.api_url.clone(),
            realm: self.realm.clone(),
            uid_attribute_id: self.uid_attribute_id.clone(),
            uid_token_claim: self.uid_token_claim.clone(),
            client_id: self.client_id.clone(),
            client_secret: self.client_secret.clone(),
            scopes: self.scopes.clone(),
            start_uid: self.start_uid,
            group_id: self.group_id,
            home_directory_parent: self.home_directory_parent.clone(),
            shell: self.shell.clone(),
        }
    }
}

} // verus!
