//! The identity resolver: the three lookup operations as a state machine.
//!
//! Each operation is a small state machine over {read the configuration,
//! query the directory, fall back to the cache, allocate a numeric ID,
//! write it back, persist the result}. The machine itself performs no
//! outside effect: [`next_action`] names the one effect the caller must
//! perform for the current state, and [`step`] consumes the effect's
//! outcome as an event. A `Done` state carries the operation's response
//! and, where the operation resolved fresh directory data, the batch of
//! entries the caller must merge into the cache.

use vstd::prelude::*;

use crate::api_types::{attr_lookup, attr_set, UserRepresentation, UserRepresentationView};
use crate::cache::{spec_find_by_name, spec_find_by_uid, spec_passwd_of_user, spec_user_of_passwd,
    Cache, User, UserView};
use crate::config::{Config, ConfigView};
use crate::numeric::{dec_string_of, parse_u32, parse_u32_of, u32_to_string};
use crate::passwd::{Passwd, PasswdView};

verus! {

/// Page bound sent with an unfiltered "list everyone" directory query.
pub const MAX_LIST_RESULTS: u32 = 9999;

/// One lookup request, as the host framework states it.
#[derive(Clone, Debug, PartialEq)]
pub enum Request {
    All,
    ByUid(u32),
    ByName(String),
}

#[verifier::ext_equal]
pub enum RequestView {
    All,
    ByUid(u32),
    ByName(Seq<char>),
}

impl View for Request {
    type V = RequestView;

    open spec fn view(&self) -> RequestView {
        match self {
            Request::All => RequestView::All,
            Request::ByUid(uid) => RequestView::ByUid(*uid),
            Request::ByName(name) => RequestView::ByName(name@),
        }
    }
}

/// The directory query the caller must issue: an unfiltered page-bounded
/// listing, an equality filter on the numeric-ID attribute, or an exact
/// login-name match.
#[derive(Clone, Debug, PartialEq)]
pub enum Query {
    All { max_results: u32 },
    ByUidAttribute { attribute: String, uid: u32 },
    ByName { name: String },
}

#[verifier::ext_equal]
pub enum QueryView {
    All { max_results: u32 },
    ByUidAttribute { attribute: Seq<char>, uid: u32 },
    ByName { name: Seq<char> },
}

impl View for Query {
    type V = QueryView;

    open spec fn view(&self) -> QueryView {
        match self {
            Query::All { max_results } => QueryView::All { max_results: *max_results },
            Query::ByUidAttribute { attribute, uid } => QueryView::ByUidAttribute {
                attribute: attribute@,
                uid: *uid,
            },
            Query::ByName { name } => QueryView::ByName { name: name@ },
        }
    }
}

impl DeepView for Query {
    type V = QueryView;

    open spec fn deep_view(&self) -> QueryView {
        self.view()
    }
}

/// How reading the configuration went.
#[derive(Clone, Debug)]
pub enum ConfigOutcome {
    /// A snapshot was read.
    Ready(Config),
    /// The file exists but could not be read or parsed.
    Unreadable,
    /// No configuration existed and a default one could not be put in
    /// place.
    SetupFailed,
}

#[verifier::ext_equal]
pub enum ConfigOutcomeView {
    Ready(ConfigView),
    Unreadable,
    SetupFailed,
}

impl View for ConfigOutcome {
    type V = ConfigOutcomeView;

    open spec fn view(&self) -> ConfigOutcomeView {
        match self {
            ConfigOutcome::Ready(c) => ConfigOutcomeView::Ready(c@),
            ConfigOutcome::Unreadable => ConfigOutcomeView::Unreadable,
            ConfigOutcome::SetupFailed => ConfigOutcomeView::SetupFailed,
        }
    }
}

/// The outcome of the one outside effect the machine asked for.
#[derive(Clone, Debug)]
pub enum Event {
    ConfigRead(ConfigOutcome),
    /// The decoded records, or `None` for any transport, decode or token
    /// failure.
    DirectoryResult(Option<Vec<UserRepresentation>>),
    /// The cache table, or `None` where no cache file exists or it cannot
    /// be parsed.
    CacheRead(Option<Cache>),
    /// Whether the probed candidate ID is taken in the local account
    /// database.
    UidProbe(bool),
    /// Whether the directory accepted the attribute update.
    WriteBackResult(bool),
}

#[verifier::ext_equal]
pub enum EventView {
    ConfigRead(ConfigOutcomeView),
    DirectoryResult(Option<Seq<UserRepresentationView>>),
    CacheRead(Option<crate::cache::CacheView>),
    UidProbe(bool),
    WriteBackResult(bool),
}

impl View for Event {
    type V = EventView;

    open spec fn view(&self) -> EventView {
        match self {
            Event::ConfigRead(o) => EventView::ConfigRead(o@),
            Event::DirectoryResult(r) => EventView::DirectoryResult(
                match r {
                    Some(users) => Some(users.deep_view()),
                    None => None,
                },
            ),
            Event::CacheRead(c) => EventView::CacheRead(
                match c {
                    Some(cache) => Some(cache@),
                    None => None,
                },
            ),
            Event::UidProbe(taken) => EventView::UidProbe(*taken),
            Event::WriteBackResult(ok) => EventView::WriteBackResult(*ok),
        }
    }
}

/// What an operation answers: the host framework's three-outcome contract,
/// with the record (or list) on success.
#[derive(Clone, Debug, PartialEq)]
pub enum Response {
    /// Success of the list-all operation.
    Entries(Vec<Passwd>),
    /// Success of a single-record lookup.
    Entry(Passwd),
    /// The subject definitely does not resolve (including an ambiguous
    /// directory answer); retrying is pointless.
    NotFound,
    /// A transient failure: the caller should retry later rather than
    /// treat the subject as nonexistent.
    TryAgain,
}

#[verifier::ext_equal]
pub enum ResponseView {
    Entries(Seq<PasswdView>),
    Entry(PasswdView),
    NotFound,
    TryAgain,
}

impl View for Response {
    type V = ResponseView;

    open spec fn view(&self) -> ResponseView {
        match self {
            Response::Entries(ps) => ResponseView::Entries(ps.deep_view()),
            Response::Entry(p) => ResponseView::Entry(p@),
            Response::NotFound => ResponseView::NotFound,
            Response::TryAgain => ResponseView::TryAgain,
        }
    }
}

/// The one outside effect the caller must perform next.
#[derive(Clone, Debug)]
pub enum Action {
    /// Read (creating first if absent) the configuration.
    ReadConfig,
    /// Issue the given authenticated directory query.
    QueryDirectory(Query),
    /// Read the cache file.
    ReadCache,
    /// Ask the local account database whether this numeric ID is taken.
    ProbeUid(u32),
    /// Send the updated identity record back to the directory, replacing
    /// the stored record's attribute map with the one carried here.
    WriteBack(UserRepresentation),
}

#[verifier::ext_equal]
pub enum ActionView {
    ReadConfig,
    QueryDirectory(QueryView),
    ReadCache,
    ProbeUid(u32),
    WriteBack(UserRepresentationView),
}

impl View for Action {
    type V = ActionView;

    open spec fn view(&self) -> ActionView {
        match self {
            Action::ReadConfig => ActionView::ReadConfig,
            Action::QueryDirectory(q) => ActionView::QueryDirectory(q@),
            Action::ReadCache => ActionView::ReadCache,
            Action::ProbeUid(uid) => ActionView::ProbeUid(*uid),
            Action::WriteBack(u) => ActionView::WriteBack(u@),
        }
    }
}

impl DeepView for Action {
    type V = ActionView;

    open spec fn deep_view(&self) -> ActionView {
        self.view()
    }
}

/// Where an operation stands.
#[derive(Clone, Debug)]
pub enum State {
    /// Waiting for the configuration.
    AwaitConfig { request: Request },
    /// Waiting for the directory's answer to the request's query.
    AwaitDirectory { request: Request, config: Config },
    /// The directory could not answer; waiting for the cache.
    AwaitCache { request: Request },
    /// Allocating: waiting to hear whether `candidate` is taken locally.
    AwaitUidProbe { config: Config, user: UserRepresentation, candidate: u32 },
    /// Waiting for the directory to accept the newly allocated ID.
    AwaitWriteBack { config: Config, update: UserRepresentation, uid: u32 },
    /// Finished. `cache_update` carries the entries the caller must merge
    /// into the cache, where fresh directory data was resolved.
    Done { response: Response, cache_update: Option<Vec<User>> },
}

#[verifier::ext_equal]
pub enum StateView {
    AwaitConfig { request: RequestView },
    AwaitDirectory { request: RequestView, config: ConfigView },
    AwaitCache { request: RequestView },
    AwaitUidProbe { config: ConfigView, user: UserRepresentationView, candidate: u32 },
    AwaitWriteBack { config: ConfigView, update: UserRepresentationView, uid: u32 },
    Done { response: ResponseView, cache_update: Option<Seq<UserView>> },
}

impl View for State {
    type V = StateView;

    open spec fn view(&self) -> StateView {
        match self {
            State::AwaitConfig { request } => StateView::AwaitConfig { request: request@ },
            State::AwaitDirectory { request, config } => StateView::AwaitDirectory {
                request: request@,
                config: config@,
            },
            State::AwaitCache { request } => StateView::AwaitCache { request: request@ },
            State::AwaitUidProbe { config, user, candidate } => StateView::AwaitUidProbe {
                config: config@,
                user: user@,
                candidate: *candidate,
            },
            State::AwaitWriteBack { config, update, uid } => StateView::AwaitWriteBack {
                config: config@,
                update: update@,
                uid: *uid,
            },
            State::Done { response, cache_update } => StateView::Done {
                response: response@,
                cache_update: match cache_update {
                    Some(us) => Some(us.deep_view()),
                    None => None,
                },
            },
        }
    }
}

/// The numeric ID an identity record carries, read from the first value of
/// the numeric-ID attribute: present only where the attribute exists, its
/// value list is non-empty, and the first value is a decimal `u32`.
pub open spec fn uid_of_attr(u: UserRepresentationView, key: Seq<char>) -> Option<u32> {
    match attr_lookup(u.attributes, key) {
        Some(vs) => if vs.len() > 0 {
            parse_u32_of(vs[0])
        } else {
            None
        },
        None => None,
    }
}

/// A record is well-formed for resolution when a numeric-ID attribute it
/// carries actually holds a readable numeric ID.
pub open spec fn uid_attr_wf(u: UserRepresentationView, key: Seq<char>) -> bool {
    attr_lookup(u.attributes, key) is Some ==> uid_of_attr(u, key) is Some
}

/// What the machine asks of a directory answer: the records whose
/// numeric-ID attribute the operation will read must be well-formed.
pub open spec fn directory_result_wf(
    request: RequestView,
    config: ConfigView,
    users: Seq<UserRepresentationView>,
) -> bool {
    match request {
        RequestView::All => forall|i: int|
            0 <= i < users.len() ==> uid_attr_wf(#[trigger] users[i], config.uid_attribute_id),
        RequestView::ByName(_) => users.len() == 1 ==> uid_attr_wf(
            users[0],
            config.uid_attribute_id,
        ),
        RequestView::ByUid(_) => true,
    }
}

/// Which events a state accepts: the outcome of the action it asked for,
/// with a well-formed directory answer.
pub open spec fn event_wf(s: StateView, e: EventView) -> bool {
    match (s, e) {
        (StateView::AwaitConfig { .. }, EventView::ConfigRead(_)) => true,
        (
            StateView::AwaitDirectory { request, config },
            EventView::DirectoryResult(r),
        ) => match r {
            Some(users) => directory_result_wf(request, config, users),
            None => true,
        },
        (StateView::AwaitCache { .. }, EventView::CacheRead(_)) => true,
        (StateView::AwaitUidProbe { .. }, EventView::UidProbe(_)) => true,
        (StateView::AwaitWriteBack { .. }, EventView::WriteBackResult(_)) => true,
        _ => false,
    }
}

/// The passwd records of a bulk listing: records already carrying a
/// readable numeric ID are mapped, the others are left out (bulk listing
/// never allocates), order kept.
pub open spec fn spec_listed_passwds(
    users: Seq<UserRepresentationView>,
    config: ConfigView,
) -> Seq<PasswdView>
    decreases users.len(),
{
    if users.len() == 0 {
        Seq::empty()
    } else {
        let rest = spec_listed_passwds(users.drop_first(), config);
        match uid_of_attr(users[0], config.uid_attribute_id) {
            Some(uid) => seq![crate::api_types::spec_to_passwd(users[0], config, uid)] + rest,
            None => rest,
        }
    }
}

/// The cache batch of a bulk listing: one entry per listed passwd record.
pub open spec fn spec_listed_users(
    users: Seq<UserRepresentationView>,
    config: ConfigView,
) -> Seq<UserView> {
    spec_listed_passwds(users, config).map_values(|p: PasswdView| spec_user_of_passwd(p))
}

/// The query issued for a request: everyone (page-bounded), equality on
/// the numeric-ID attribute, or an exact login-name match.
pub open spec fn spec_query_of(request: RequestView, config: ConfigView) -> QueryView {
    match request {
        RequestView::All => QueryView::All { max_results: MAX_LIST_RESULTS },
        RequestView::ByUid(uid) => QueryView::ByUidAttribute {
            attribute: config.uid_attribute_id,
            uid,
        },
        RequestView::ByName(name) => QueryView::ByName { name },
    }
}

/// The action a state asks its caller to perform; a finished operation
/// asks nothing.
pub open spec fn spec_next_action(s: StateView) -> Option<ActionView> {
    match s {
        StateView::AwaitConfig { .. } => Some(ActionView::ReadConfig),
        StateView::AwaitDirectory { request, config } => Some(
            ActionView::QueryDirectory(spec_query_of(request, config)),
        ),
        StateView::AwaitCache { .. } => Some(ActionView::ReadCache),
        StateView::AwaitUidProbe { candidate, .. } => Some(ActionView::ProbeUid(candidate)),
        StateView::AwaitWriteBack { update, .. } => Some(ActionView::WriteBack(update)),
        StateView::Done { .. } => None,
    }
}

/// After the configuration read: with a snapshot the directory is queried;
/// an unreadable configuration degrades to the cache; a failed first-time
/// setup is transient.
pub open spec fn spec_on_config(request: RequestView, outcome: ConfigOutcomeView) -> StateView {
    match outcome {
        ConfigOutcomeView::Ready(config) => StateView::AwaitDirectory { request, config },
        ConfigOutcomeView::Unreadable => StateView::AwaitCache { request },
        ConfigOutcomeView::SetupFailed => StateView::Done {
            response: ResponseView::TryAgain,
            cache_update: None,
        },
    }
}

/// After the cache read, on the fallback path: a hit answers from the
/// cache (without writing it); a miss, or no cache at all, is transient —
/// never "not found", since the directory was not heard.
pub open spec fn spec_on_cache(
    request: RequestView,
    cache: Option<crate::cache::CacheView>,
) -> StateView {
    match cache {
        None => StateView::Done { response: ResponseView::TryAgain, cache_update: None },
        Some(c) => match request {
            RequestView::All => StateView::Done {
                response: ResponseView::Entries(
                    c.user.map_values(|u: UserView| spec_passwd_of_user(u)),
                ),
                cache_update: None,
            },
            RequestView::ByUid(uid) => match spec_find_by_uid(c.user, uid) {
                Some(u) => StateView::Done {
                    response: ResponseView::Entry(spec_passwd_of_user(u)),
                    cache_update: None,
                },
                None => StateView::Done { response: ResponseView::TryAgain, cache_update: None },
            },
            RequestView::ByName(name) => match spec_find_by_name(c.user, name) {
                Some(u) => StateView::Done {
                    response: ResponseView::Entry(spec_passwd_of_user(u)),
                    cache_update: None,
                },
                None => StateView::Done { response: ResponseView::TryAgain, cache_update: None },
            },
        },
    }
}

/// After the directory's answer. A failure degrades to the cache. A bulk
/// listing maps the records that carry a numeric ID and refreshes the
/// cache with them. A single-record lookup demands exactly one match —
/// zero or several are answered "not found" — and, by name only, a match
/// without a numeric ID starts allocation at the configured floor.
pub open spec fn spec_on_directory(
    request: RequestView,
    config: ConfigView,
    result: Option<Seq<UserRepresentationView>>,
) -> StateView {
    match result {
        None => StateView::AwaitCache { request },
        Some(users) => match request {
            RequestView::All => StateView::Done {
                response: ResponseView::Entries(spec_listed_passwds(users, config)),
                cache_update: Some(spec_listed_users(users, config)),
            },
            RequestView::ByUid(uid) => if users.len() != 1 {
                StateView::Done { response: ResponseView::NotFound, cache_update: None }
            } else {
                let p = crate::api_types::spec_to_passwd(users[0], config, uid);
                StateView::Done {
                    response: ResponseView::Entry(p),
                    cache_update: Some(seq![spec_user_of_passwd(p)]),
                }
            },
            RequestView::ByName(_) => if users.len() != 1 {
                StateView::Done { response: ResponseView::NotFound, cache_update: None }
            } else {
                match uid_of_attr(users[0], config.uid_attribute_id) {
                    Some(uid) => {
                        let p = crate::api_types::spec_to_passwd(users[0], config, uid);
                        StateView::Done {
                            response: ResponseView::Entry(p),
                            cache_update: Some(seq![spec_user_of_passwd(p)]),
                        }
                    },
                    None => StateView::AwaitUidProbe {
                        config,
                        user: users[0],
                        candidate: config.start_uid,
                    },
                }
            },
        },
    }
}

/// After one occupancy probe: a free candidate is written back to the
/// directory as the record's numeric-ID attribute; a taken one moves the
/// scan up by one. An exhausted ID space is transient.
pub open spec fn spec_on_probe(
    config: ConfigView,
    user: UserRepresentationView,
    candidate: u32,
    taken: bool,
) -> StateView {
    if !taken {
        StateView::AwaitWriteBack {
            config,
            update: UserRepresentationView {
                attributes: attr_set(
                    user.attributes,
                    config.uid_attribute_id,
                    seq![dec_string_of(candidate as nat)],
                ),
                ..user
            },
            uid: candidate,
        }
    } else if candidate == u32::MAX {
        StateView::Done { response: ResponseView::TryAgain, cache_update: None }
    } else {
        StateView::AwaitUidProbe { config, user, candidate: (candidate + 1) as u32 }
    }
}

/// After the write-back: only an accepted update yields the record (and a
/// cache entry); a refused one is transient, and the computed ID is
/// discarded rather than returned unconfirmed.
pub open spec fn spec_on_write_back(
    config: ConfigView,
    update: UserRepresentationView,
    uid: u32,
    ok: bool,
) -> StateView {
    if ok {
        let p = crate::api_types::spec_to_passwd(update, config, uid);
        StateView::Done {
            response: ResponseView::Entry(p),
            cache_update: Some(seq![spec_user_of_passwd(p)]),
        }
    } else {
        StateView::Done { response: ResponseView::TryAgain, cache_update: None }
    }
}

/// The whole transition function.
pub open spec fn spec_step(s: StateView, e: EventView) -> StateView {
    match (s, e) {
        (StateView::AwaitConfig { request }, EventView::ConfigRead(o)) => spec_on_config(
            request,
            o,
        ),
        (
            StateView::AwaitDirectory { request, config },
            EventView::DirectoryResult(r),
        ) => spec_on_directory(request, config, r),
        (StateView::AwaitCache { request }, EventView::CacheRead(c)) => spec_on_cache(request, c),
        (
            StateView::AwaitUidProbe { config, user, candidate },
            EventView::UidProbe(taken),
        ) => spec_on_probe(config, user, candidate, taken),
        (
            StateView::AwaitWriteBack { config, update, uid },
            EventView::WriteBackResult(ok),
        ) => spec_on_write_back(config, update, uid, ok),
        _ => s,
    }
}

/// Begins the list-all operation.
pub fn get_all_entries() -> (s: State)
    ensures
        s@ == (StateView::AwaitConfig { request: RequestView::All }),
{
    State::AwaitConfig { request: Request::All }
}

/// Begins a lookup by numeric ID.
pub fn get_entry_by_uid(uid: u32) -> (s: State)
    ensures
        s@ == (StateView::AwaitConfig { request: RequestView::ByUid(uid) }),
{
    State::AwaitConfig { request: Request::ByUid(uid) }
}

/// Begins a lookup by login name.
pub fn get_entry_by_name(name: String) -> (s: State)
    ensures
        s@ == (StateView::AwaitConfig { request: RequestView::ByName(name@) }),
{
    State::AwaitConfig { request: Request::ByName(name) }
}

/// The action the caller must perform for the current state.
pub fn next_action(s: &State) -> (a: Option<Action>)
    ensures
        a.deep_view() =~~= spec_next_action(s@),
{
    match s {
        State::AwaitConfig { .. } => Some(Action::ReadConfig),
        State::AwaitDirectory { request, config } => {
            let q = match request {
                Request::All => Query::All { max_results: MAX_LIST_RESULTS },
                Request::ByUid(uid) => Query::ByUidAttribute {
                    attribute: config.uid_attribute_id.clone(),
                    uid: *uid,
                },
                Request::ByName(name) => Query::ByName { name: name.clone() },
            };
            Some(Action::QueryDirectory(q))
        },
        State::AwaitCache { .. } => Some(Action::ReadCache),
        State::AwaitUidProbe { candidate, .. } => Some(Action::ProbeUid(*candidate)),
        State::AwaitWriteBack { update, .. } => Some(Action::WriteBack(update.duplicate())),
        State::Done { .. } => None,
    }
}

/// The filter value sent with a numeric-ID query: `attribute:uid`.
pub fn uid_query_value(attribute: &String, uid: u32) -> (v: String)
    ensures
        v@ == attribute@ + ":"@ + dec_string_of(uid as nat),
{
    let mut v = attribute.clone();
    v.append(":");
    let digits = u32_to_string(uid);
    v.append(digits.as_str());
    v
}

/// Handles the configuration read.
pub fn on_config(request: Request, outcome: ConfigOutcome) -> (next: State)
    ensures
        next@ =~~= spec_on_config(request@, outcome@),
{
    match outcome {
        ConfigOutcome::Ready(config) => State::AwaitDirectory { request, config },
        ConfigOutcome::Unreadable => State::AwaitCache { request },
        ConfigOutcome::SetupFailed => State::Done {
            response: Response::TryAgain,
            cache_update: None,
        },
    }
}

/// Handles the cache read on the fallback path.
pub fn on_cache(request: Request, cache: Option<Cache>) -> (next: State)
    ensures
        next@ =~~= spec_on_cache(request@, match cache {
            Some(c) => Some(c@),
            None => None,
        }),
{
    match cache {
        None => State::Done { response: Response::TryAgain, cache_update: None },
        Some(c) => match request {
            Request::All => {
                let passwds = c.all_passwds();
                State::Done { response: Response::Entries(passwds), cache_update: None }
            },
            Request::ByUid(uid) => match c.find_by_uid(uid) {
                Some(u) => State::Done {
                    response: Response::Entry(u.to_passwd()),
                    cache_update: None,
                },
                None => State::Done { response: Response::TryAgain, cache_update: None },
            },
            Request::ByName(name) => match c.find_by_name(&name) {
                Some(u) => State::Done {
                    response: Response::Entry(u.to_passwd()),
                    cache_update: None,
                },
                None => State::Done { response: Response::TryAgain, cache_update: None },
            },
        },
    }
}

/// The numeric ID carried by a well-formed record's attribute.
fn read_uid_attr(user: &UserRepresentation, key: &String) -> (r: Option<u32>)
    requires
        uid_attr_wf(user@, key@),
    ensures
        r == uid_of_attr(user@, key@),
{
    match user.attribute_values(key) {
        Some(vs) => {
            assert(vs.deep_view().len() > 0);
            let first = &vs[0];
            let parsed = parse_u32(first.as_str());
            assert(first@ == vs.deep_view()[0]);
            match parsed {
                Some(uid) => Some(uid),
                None => {
                    proof {
                        assert(false);
                    }
                    None
                },
            }
        },
        None => None,
    }
}

/// Handles the directory's answer.
pub fn on_directory(
    request: Request,
    config: Config,
    result: Option<Vec<UserRepresentation>>,
) -> (next: State)
    requires
        (match result {
            Some(users) => directory_result_wf(request@, config@, users.deep_view()),
            None => true,
        }),
    ensures
        next@ =~~= spec_on_directory(request@, config@, match result {
            Some(users) => Some(users.deep_view()),
            None => None,
        }),
{
    match result {
        None => State::AwaitCache { request },
        Some(users) => match request {
            Request::All => {
                let ghost uviews = users.deep_view();
                let mut passwds: Vec<Passwd> = Vec::new();
                let mut entries: Vec<User> = Vec::new();
                let mut i: usize = 0;
                proof {
                    assert(uviews.skip(0) =~= uviews);
                }
                while i < users.len()
                    invariant
                        0 <= i <= users.len(),
                        uviews == users.deep_view(),
                        directory_result_wf(RequestView::All, config@, uviews),
                        passwds.deep_view() + spec_listed_passwds(uviews.skip(i as int), config@)
                            =~~= spec_listed_passwds(uviews, config@),
                        entries.deep_view() =~~= passwds.deep_view().map_values(
                            |p: PasswdView| spec_user_of_passwd(p),
                        ),
                    decreases users.len() - i,
                {
                    proof {
                        assert(uviews.skip(i as int)[0] == uviews[i as int]);
                        assert(uviews.skip(i as int).drop_first() =~= uviews.skip(i + 1));
                    }
                    match read_uid_attr(&users[i], &config.uid_attribute_id) {
                        Some(uid) => {
                            let p = users[i].to_passwd(&config, uid);
                            let u = User::from_passwd(&p);
                            let ghost pg = p;
                            let ghost ug = u;
                            let ghost prev_p = passwds;
                            let ghost prev_e = entries;
                            passwds.push(p);
                            entries.push(u);
                            proof {
                                crate::api_types::lemma_push_deep_view(prev_p, passwds, pg);
                                crate::api_types::lemma_push_deep_view(prev_e, entries, ug);
                                assert(passwds.deep_view() + spec_listed_passwds(
                                    uviews.skip(i + 1),
                                    config@,
                                ) =~~= spec_listed_passwds(uviews, config@));
                                assert(entries.deep_view() =~~= passwds.deep_view().map_values(
                                    |q: PasswdView| spec_user_of_passwd(q),
                                ));
                            }
                        },
                        None => {
                        },
                    }
                    i = i + 1;
                }
                proof {
                    assert(uviews.skip(users.len() as int)
                        =~= Seq::<UserRepresentationView>::empty());
                    assert(passwds.deep_view() =~~= spec_listed_passwds(uviews, config@));
                    assert(entries.deep_view() =~~= spec_listed_users(uviews, config@));
                }
                State::Done {
                    response: Response::Entries(passwds),
                    cache_update: Some(entries),
                }
            },
            Request::ByUid(uid) => {
                if users.len() != 1 {
                    State::Done { response: Response::NotFound, cache_update: None }
                } else {
                    let p = users[0].to_passwd(&config, uid);
                    let entry = User::from_passwd(&p);
                    State::Done {
                        response: Response::Entry(p),
                        cache_update: Some(vec![entry]),
                    }
                }
            },
            Request::ByName(_name) => {
                if users.len() != 1 {
                    State::Done { response: Response::NotFound, cache_update: None }
                } else {
                    match read_uid_attr(&users[0], &config.uid_attribute_id) {
                        Some(uid) => {
                            let p = users[0].to_passwd(&config, uid);
                            let entry = User::from_passwd(&p);
                            State::Done {
                                response: Response::Entry(p),
                                cache_update: Some(vec![entry]),
                            }
                        },
                        None => {
                            let candidate = config.start_uid;
                            State::AwaitUidProbe {
                                config,
                                user: users[0].duplicate(),
                                candidate,
                            }
                        },
                    }
                }
            },
        },
    }
}

/// Handles one occupancy probe.
pub fn on_probe(config: Config, user: UserRepresentation, candidate: u32, taken: bool) -> (next:
    State)
    ensures
        next@ =~~= spec_on_probe(config@, user@, candidate, taken),
{
    if !taken {
        let value = u32_to_string(candidate);
        let mut values: Vec<String> = Vec::new();
        values.push(value);
        proof {
            assert(values.deep_view() =~= seq![dec_string_of(candidate as nat)]);
        }
        let update = user.with_attribute(&config.uid_attribute_id, values);
        proof {
            assert(update@.attributes =~~= attr_set(
                user@.attributes,
                config@.uid_attribute_id,
                seq![dec_string_of(candidate as nat)],
            ));
        }
        State::AwaitWriteBack { config, update, uid: candidate }
    } else if candidate == u32::MAX {
        State::Done { response: Response::TryAgain, cache_update: None }
    } else {
        State::AwaitUidProbe { config, user, candidate: candidate + 1 }
    }
}

/// Handles the write-back's outcome.
pub fn on_write_back(config: Config, update: UserRepresentation, uid: u32, ok: bool) -> (next:
    State)
    ensures
        next@ =~~= spec_on_write_back(config@, update@, uid, ok),
{
    if ok {
        let p = update.to_passwd(&config, uid);
        let entry = User::from_passwd(&p);
        State::Done { response: Response::Entry(p), cache_update: Some(vec![entry]) }
    } else {
        State::Done { response: Response::TryAgain, cache_update: None }
    }
}

/// Feeds the outcome of the asked-for action into the machine.
pub fn step(s: State, e: Event) -> (next: State)
    requires
        event_wf(s@, e@),
    ensures
        next@ =~~= spec_step(s@, e@),
{
    match (s, e) {
        (State::AwaitConfig { request }, Event::ConfigRead(o)) => on_config(request, o),
        (State::AwaitDirectory { request, config }, Event::DirectoryResult(r)) => on_directory(
            request,
            config,
            r,
        ),
        (State::AwaitCache { request }, Event::CacheRead(c)) => on_cache(request, c),
        (State::AwaitUidProbe { config, user, candidate }, Event::UidProbe(taken)) => on_probe(
            config,
            user,
            candidate,
            taken,
        ),
        (
            State::AwaitWriteBack { config, update, uid },
            Event::WriteBackResult(ok),
        ) => on_write_back(config, update, uid, ok),
        (other, _) => {
            proof {
                assert(false);
            }
            other
        },
    }
}

/// Whenever the directory cannot answer — the configuration is unreadable
/// or the query fails — a lookup by numeric ID turns to the cache, and is
/// answered with the cached record for every numeric ID the cache holds.
pub proof fn lemma_cache_serves_known_uids(
    cache: crate::cache::CacheView,
    uid: u32,
    entry: UserView,
)
    requires
        spec_find_by_uid(cache.user, uid) == Some(entry),
    ensures
        spec_step(
            StateView::AwaitConfig { request: RequestView::ByUid(uid) },
            EventView::ConfigRead(ConfigOutcomeView::Unreadable),
        ) == (StateView::AwaitCache { request: RequestView::ByUid(uid) }),
        forall|config: ConfigView|
            spec_step(
                StateView::AwaitDirectory { request: RequestView::ByUid(uid), config },
                EventView::DirectoryResult(None),
            ) == (StateView::AwaitCache { request: RequestView::ByUid(uid) }),
        spec_step(
            StateView::AwaitCache { request: RequestView::ByUid(uid) },
            EventView::CacheRead(Some(cache)),
        ) == (StateView::Done {
            response: ResponseView::Entry(spec_passwd_of_user(entry)),
            cache_update: None,
        }),
{
}

/// A lookup by login name whose single directory match already carries a
/// numeric ID finishes at once with the mapped record: no allocation is
/// started and no write-back is ever requested, so running the same lookup
/// twice gives the identical record both times.
pub proof fn lemma_known_uid_resolves_without_write_back(
    name: Seq<char>,
    config: ConfigView,
    user: UserRepresentationView,
    uid: u32,
)
    requires
        uid_of_attr(user, config.uid_attribute_id) == Some(uid),
    ensures
        spec_step(
            StateView::AwaitDirectory { request: RequestView::ByName(name), config },
            EventView::DirectoryResult(Some(seq![user])),
        ) == (StateView::Done {
            response: ResponseView::Entry(crate::api_types::spec_to_passwd(user, config, uid)),
            cache_update: Some(
                seq![spec_user_of_passwd(crate::api_types::spec_to_passwd(user, config, uid))],
            ),
        }),
{
    assert(seq![user].len() == 1);
    assert(seq![user][0] == user);
}

/// A failed write-back ends the operation as transient: the computed
/// numeric ID is discarded, the answer is "try again", and no cache entry
/// is created or updated for the subject.
pub proof fn lemma_failed_write_back_is_transient(
    config: ConfigView,
    update: UserRepresentationView,
    uid: u32,
)
    ensures
        spec_step(
            StateView::AwaitWriteBack { config, update, uid },
            EventView::WriteBackResult(false),
        ) == (StateView::Done { response: ResponseView::TryAgain, cache_update: None }),
{
}

/// A single-record lookup whose directory query matches zero or several
/// records is answered "not found", never with a record: an ambiguous
/// answer to a should-be-unique filter is a data-integrity problem that
/// the resolver refuses to pick a winner for.
pub proof fn lemma_ambiguous_answer_is_not_found(
    request: RequestView,
    config: ConfigView,
    users: Seq<UserRepresentationView>,
)
    requires
        users.len() != 1,
        (request is ByUid || request is ByName),
    ensures
        spec_step(
            StateView::AwaitDirectory { request, config },
            EventView::DirectoryResult(Some(users)),
        ) == (StateView::Done { response: ResponseView::NotFound, cache_update: None }),
{
}

} // verus!
