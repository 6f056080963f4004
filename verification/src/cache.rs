//! The local cache: a durable table of previously resolved identities,
//! keyed by numeric ID, served when the remote directory is unreachable.
//!
//! Reading and writing the cache file is the caller's concern; this module
//! holds the table itself, the merge that every write goes through, and the
//! lookups the fallback paths use.

use vstd::prelude::*;

use crate::api_types::lemma_push_deep_view;
use crate::passwd::{Passwd, PasswdView};

verus! {

/// One cache entry: a persisted copy of a resolved passwd record.
#[derive(Clone, Debug, PartialEq)]
pub struct User {
    pub uid: u32,
    pub username: String,
    /// Display name (the passwd record's gecos field).
    pub name: String,
    pub gid: u32,
    pub home_dir: String,
    pub shell: String,
}

#[verifier::ext_equal]
pub struct UserView {
    pub uid: u32,
    pub username: Seq<char>,
    pub name: Seq<char>,
    pub gid: u32,
    pub home_dir: Seq<char>,
    pub shell: Seq<char>,
}

impl View for User {
    type V = UserView;

    open spec fn view(&self) -> UserView {
        UserView {
            uid: self.uid,
            username: self.username@,
            name: self.name@,
            gid: self.gid,
            home_dir: self.home_dir@,
            shell: self.shell@,
        }
    }
}

impl DeepView for User {
    type V = UserView;

    open spec fn deep_view(&self) -> UserView {
        self.view()
    }
}

/// The whole cache table.
#[derive(Clone, Debug, PartialEq)]
pub struct Cache {
    pub user: Vec<User>,
}

#[verifier::ext_equal]
pub struct CacheView {
    pub user: Seq<UserView>,
}

impl View for Cache {
    type V = CacheView;

    open spec fn view(&self) -> CacheView {
        CacheView { user: self.user.deep_view() }
    }
}

impl DeepView for Cache {
    type V = CacheView;

    open spec fn deep_view(&self) -> CacheView {
        self.view()
    }
}

impl Default for Cache {
    /// The empty table, standing in whenever no cache file can be read.
    fn default() -> (c: Cache)
        ensures
            c@.user =~= Seq::<UserView>::empty(),
    {
        Cache { user: Vec::new() }
    }
}

/// The cache entry persisted for a resolved passwd record.
pub open spec fn spec_user_of_passwd(p: PasswdView) -> UserView {
    UserView {
        uid: p.uid,
        username: p.name,
        name: p.gecos,
        gid: p.gid,
        home_dir: p.dir,
        shell: p.shell,
    }
}

/// The passwd record a cache entry stands for, with the fixed password
/// placeholder restored.
pub open spec fn spec_passwd_of_user(u: UserView) -> PasswdView {
    PasswdView {
        name: u.username,
        passwd: "x"@,
        uid: u.uid,
        gid: u.gid,
        gecos: u.name,
        dir: u.home_dir,
        shell: u.shell,
    }
}

impl User {
    /// The cache entry for a resolved passwd record.
    pub fn from_passwd(p: &Passwd) -> (u: User)
        ensures
            u@ =~= spec_user_of_passwd(p@),
    {
        User {
            uid: p.uid,
            username: p.name.clone(),
            name: p.gecos.clone(),
            gid: p.gid,
            home_dir: p.dir.clone(),
            shell: p.shell.clone(),
        }
    }

    /// The passwd record this cache entry stands for.
    pub fn to_passwd(&self) -> (p: Passwd)
        ensures
            p@ =~= spec_passwd_of_user(self@),
    {
        Passwd {
            name: self.username.clone(),
            passwd: "x".to_owned(),
            uid: self.uid,
            gid: self.gid,
            gecos: self.name.clone(),
            dir: self.home_dir.clone(),
            shell: self.shell.clone(),
        }
    }

    /// An identical entry, with a contract (the derived `Clone` carries
    /// none).
    pub fn duplicate(&self) -> (u: User)
        ensures
            u@ =~= self@,
    {
        User {
            uid: self.uid,
            username: self.username.clone(),
            name: self.name.clone(),
            gid: self.gid,
            home_dir: self.home_dir.clone(),
            shell: self.shell.clone(),
        }
    }
}

/// No two entries share a numeric ID.
pub open spec fn uids_unique(users: Seq<UserView>) -> bool {
    forall|i: int, j: int|
        0 <= i < j < users.len() ==> #[trigger] users[i].uid != #[trigger] users[j].uid
}

/// Whether some entry carries the given numeric ID.
pub open spec fn contains_uid(users: Seq<UserView>, uid: u32) -> bool {
    exists|i: int| 0 <= i < users.len() && #[trigger] users[i].uid == uid
}

/// The table without any entry carrying the given numeric ID, order kept.
pub open spec fn spec_remove_uid(users: Seq<UserView>, uid: u32) -> Seq<UserView>
    decreases users.len(),
{
    if users.len() == 0 {
        Seq::empty()
    } else if users[0].uid == uid {
        spec_remove_uid(users.drop_first(), uid)
    } else {
        seq![users[0]] + spec_remove_uid(users.drop_first(), uid)
    }
}

/// A cache write merges: each incoming record replaces every entry with its
/// numeric ID and is appended; entries with other IDs stay, order kept.
pub open spec fn spec_merge(cache: Seq<UserView>, incoming: Seq<UserView>) -> Seq<UserView>
    decreases incoming.len(),
{
    if incoming.len() == 0 {
        cache
    } else {
        spec_merge(
            spec_remove_uid(cache, incoming[0].uid).push(incoming[0]),
            incoming.drop_first(),
        )
    }
}

/// Removal takes out exactly the entries with the given ID: the rest keep
/// their order, no ID appears that was not there, and uniqueness is kept.
proof fn lemma_remove_uid_props(users: Seq<UserView>, uid: u32)
    ensures
        forall|k: int|
            0 <= k < spec_remove_uid(users, uid).len() ==> #[trigger] spec_remove_uid(
                users,
                uid,
            )[k].uid != uid,
        forall|u: u32|
            #[trigger] contains_uid(spec_remove_uid(users, uid), u) ==> contains_uid(users, u),
        uids_unique(users) ==> uids_unique(spec_remove_uid(users, uid)),
    decreases users.len(),
{
    let res = spec_remove_uid(users, uid);
    if users.len() == 0 {
        assert(res.len() == 0);
    } else {
        let rest = users.drop_first();
        let rem = spec_remove_uid(rest, uid);
        lemma_remove_uid_props(rest, uid);
        assert forall|u: u32| #[trigger] contains_uid(rest, u) implies contains_uid(users, u) by {
            let i = choose|i: int| 0 <= i < rest.len() && #[trigger] rest[i].uid == u;
            assert(users[i + 1].uid == u);
        }
        if uids_unique(users) {
            assert(uids_unique(rest)) by {
                assert forall|i: int, j: int|
                    0 <= i < j < rest.len() implies #[trigger] rest[i].uid
                    != #[trigger] rest[j].uid by {
                    assert(users[i + 1].uid != users[j + 1].uid);
                }
            }
        }
        if users[0].uid == uid {
            assert(res =~= rem);
            assert forall|u: u32| #[trigger] contains_uid(res, u) implies contains_uid(
                users,
                u,
            ) by {
                assert(contains_uid(rem, u));
            }
        } else {
            assert(res =~= seq![users[0]] + rem);
            assert forall|k: int| 0 <= k < res.len() implies #[trigger] res[k].uid != uid by {
                if k > 0 {
                    assert(res[k] == rem[k - 1]);
                }
            }
            assert forall|u: u32| #[trigger] contains_uid(res, u) implies contains_uid(
                users,
                u,
            ) by {
                let m = choose|m: int| 0 <= m < res.len() && #[trigger] res[m].uid == u;
                if m == 0 {
                    assert(users[0].uid == u);
                } else {
                    assert(rem[m - 1].uid == u);
                    assert(contains_uid(rem, u));
                    assert(contains_uid(rest, u));
                }
            }
            if uids_unique(users) {
                assert forall|i: int, j: int|
                    0 <= i < j < res.len() implies #[trigger] res[i].uid
                    != #[trigger] res[j].uid by {
                    if i == 0 {
                        assert(res[j] == rem[j - 1]);
                        assert(rem[j - 1].uid == rem[j - 1].uid && 0 <= j - 1 < rem.len());
                        assert(contains_uid(rem, rem[j - 1].uid));
                        assert(contains_uid(rest, rem[j - 1].uid));
                        let k = choose|k: int|
                            0 <= k < rest.len() && #[trigger] rest[k].uid == rem[j - 1].uid;
                        assert(users[k + 1].uid == rest[k].uid);
                        assert(users[0].uid != users[k + 1].uid);
                    } else {
                        assert(res[i] == rem[i - 1]);
                        assert(res[j] == rem[j - 1]);
                        assert(rem[i - 1].uid != rem[j - 1].uid);
                    }
                }
            }
        }
    }
}

/// Merging keeps numeric IDs unique: a table whose IDs are unique stays
/// unique under any write, whatever the incoming batch holds.
pub proof fn lemma_merge_preserves_uid_uniqueness(cache: Seq<UserView>, incoming: Seq<UserView>)
    requires
        uids_unique(cache),
    ensures
        uids_unique(spec_merge(cache, incoming)),
    decreases incoming.len(),
{
    if incoming.len() > 0 {
        let removed = spec_remove_uid(cache, incoming[0].uid);
        lemma_remove_uid_props(cache, incoming[0].uid);
        let stepped = removed.push(incoming[0]);
        assert(uids_unique(stepped)) by {
            assert forall|i: int, j: int|
                0 <= i < j < stepped.len() implies #[trigger] stepped[i].uid
                != #[trigger] stepped[j].uid by {
                if j == stepped.len() - 1 {
                    assert(removed[i].uid != incoming[0].uid);
                }
            }
        }
        lemma_merge_preserves_uid_uniqueness(stepped, incoming.drop_first());
    }
}

/// The table after a whole sequence of writes, oldest first.
pub open spec fn spec_merge_all(cache: Seq<UserView>, batches: Seq<Seq<UserView>>) -> Seq<UserView>
    decreases batches.len(),
{
    if batches.len() == 0 {
        cache
    } else {
        spec_merge_all(spec_merge(cache, batches[0]), batches.drop_first())
    }
}

/// After any sequence of cache writes onto a table whose numeric IDs are
/// unique — the empty table a write sequence starts from included — no two
/// entries share a numeric ID.
pub proof fn lemma_write_sequence_keeps_uids_unique(
    cache: Seq<UserView>,
    batches: Seq<Seq<UserView>>,
)
    requires
        uids_unique(cache),
    ensures
        uids_unique(spec_merge_all(cache, batches)),
    decreases batches.len(),
{
    if batches.len() > 0 {
        lemma_merge_preserves_uid_uniqueness(cache, batches[0]);
        lemma_write_sequence_keeps_uids_unique(spec_merge(cache, batches[0]),
            batches.drop_first());
    }
}

/// Appending an element to the scanned table extends the removal's result
/// by that element, unless it carries the removed ID.
proof fn lemma_remove_uid_snoc(users: Seq<UserView>, x: UserView, uid: u32)
    ensures
        spec_remove_uid(users.push(x), uid) =~= if x.uid == uid {
            spec_remove_uid(users, uid)
        } else {
            spec_remove_uid(users, uid).push(x)
        },
    decreases users.len(),
{
    if users.len() == 0 {
        let empty = Seq::<UserView>::empty();
        assert(users.push(x)[0] == x);
        assert(users.push(x).drop_first() =~= empty);
        assert(spec_remove_uid(empty, uid) =~= empty);
        if x.uid != uid {
            assert(spec_remove_uid(users.push(x), uid) =~= seq![x] + spec_remove_uid(empty, uid));
            assert(seq![x] + empty =~= seq![x]);
            assert(spec_remove_uid(users, uid) =~= empty);
        }
    } else {
        assert(users.push(x)[0] == users[0]);
        assert(users.push(x).drop_first() =~= users.drop_first().push(x));
        lemma_remove_uid_snoc(users.drop_first(), x, uid);
    }
}

/// The table without any entry carrying the given numeric ID.
fn remove_uid(users: &Vec<User>, uid: u32) -> (out: Vec<User>)
    ensures
        out.deep_view() =~= spec_remove_uid(users.deep_view(), uid),
{
    let mut out: Vec<User> = Vec::new();
    let mut i: usize = 0;
    proof {
        assert(users.deep_view().take(0) =~= Seq::<UserView>::empty());
    }
    while i < users.len()
        invariant
            0 <= i <= users.len(),
            out.deep_view() =~= spec_remove_uid(users.deep_view().take(i as int), uid),
        decreases users.len() - i,
    {
        proof {
            assert(users.deep_view().take(i + 1) =~= users.deep_view().take(i as int).push(
                users.deep_view()[i as int],
            ));
            lemma_remove_uid_snoc(users.deep_view().take(i as int), users.deep_view()[i as int],
                uid);
        }
        if users[i].uid != uid {
            let u = users[i].duplicate();
            let ghost ug = u;
            let ghost prev = out;
            out.push(u);
            proof {
                lemma_push_deep_view(prev, out, ug);
            }
        }
        i = i + 1;
    }
    proof {
        assert(users.deep_view().take(users.len() as int) =~= users.deep_view());
    }
    out
}

/// Writes a batch of entries into the table: each incoming record replaces
/// every entry sharing its numeric ID and is appended; all other entries
/// stay, order kept. This is the only way entries enter the cache.
pub fn update_cache(cache: Cache, users: &Vec<User>) -> (out: Cache)
    ensures
        out@.user =~= spec_merge(cache@.user, users.deep_view()),
{
    let ghost full = spec_merge(cache@.user, users.deep_view());
    let mut cur: Vec<User> = cache.user;
    let mut i: usize = 0;
    proof {
        assert(users.deep_view().skip(0) =~= users.deep_view());
    }
    while i < users.len()
        invariant
            0 <= i <= users.len(),
            spec_merge(cur.deep_view(), users.deep_view().skip(i as int)) =~= full,
        decreases users.len() - i,
    {
        proof {
            assert(users.deep_view().skip(i as int).drop_first() =~= users.deep_view().skip(
                i + 1,
            ));
            assert(users.deep_view().skip(i as int)[0] == users.deep_view()[i as int]);
        }
        let mut next = remove_uid(&cur, users[i].uid);
        let u = users[i].duplicate();
        let ghost ug = u;
        let ghost prev = next;
        next.push(u);
        proof {
            lemma_push_deep_view(prev, next, ug);
            assert(next.deep_view() =~= spec_remove_uid(cur.deep_view(),
                users.deep_view()[i as int].uid).push(users.deep_view()[i as int]));
        }
        cur = next;
        i = i + 1;
    }
    proof {
        assert(users.deep_view().skip(users.len() as int) =~= Seq::<UserView>::empty());
    }
    Cache { user: cur }
}

/// The first entry with the given numeric ID, if any. Where IDs are unique
/// it is the only one.
pub open spec fn spec_find_by_uid(users: Seq<UserView>, uid: u32) -> Option<UserView>
    decreases users.len(),
{
    if users.len() == 0 {
        None
    } else if users[0].uid == uid {
        Some(users[0])
    } else {
        spec_find_by_uid(users.drop_first(), uid)
    }
}

/// The first entry with the given login name, if any.
pub open spec fn spec_find_by_name(users: Seq<UserView>, name: Seq<char>) -> Option<UserView>
    decreases users.len(),
{
    if users.len() == 0 {
        None
    } else if users[0].username == name {
        Some(users[0])
    } else {
        spec_find_by_name(users.drop_first(), name)
    }
}

impl Cache {
    /// The first cached entry with the given numeric ID, if any.
    pub fn find_by_uid(&self, uid: u32) -> (r: Option<&User>)
        ensures
            match r {
                Some(u) => spec_find_by_uid(self@.user, uid) == Some(u@),
                None => spec_find_by_uid(self@.user, uid) is None,
            },
    {
        let n = self.user.len();
        let mut i: usize = 0;
        proof {
            assert(self@.user.skip(0) =~= self@.user);
        }
        while i < n
            invariant
                0 <= i <= n == self.user.len(),
                spec_find_by_uid(self@.user, uid) == spec_find_by_uid(
                    self@.user.skip(i as int),
                    uid,
                ),
            decreases n - i,
        {
            proof {
                assert(self@.user.skip(i as int)[0] == self@.user[i as int]);
                assert(self@.user.skip(i as int).drop_first() =~= self@.user.skip(i + 1));
            }
            if self.user[i].uid == uid {
                return Some(&self.user[i]);
            }
            i = i + 1;
        }
        proof {
            assert(self@.user.skip(n as int) =~= Seq::<UserView>::empty());
        }
        None
    }

    /// The first cached entry with the given login name, if any.
    pub fn find_by_name(&self, name: &String) -> (r: Option<&User>)
        ensures
            match r {
                Some(u) => spec_find_by_name(self@.user, name@) == Some(u@),
                None => spec_find_by_name(self@.user, name@) is None,
            },
    {
        let n = self.user.len();
        let mut i: usize = 0;
        proof {
            assert(self@.user.skip(0) =~= self@.user);
        }
        while i < n
            invariant
                0 <= i <= n == self.user.len(),
                spec_find_by_name(self@.user, name@) == spec_find_by_name(
                    self@.user.skip(i as int),
                    name@,
                ),
            decreases n - i,
        {
            proof {
                assert(self@.user.skip(i as int)[0] == self@.user[i as int]);
                assert(self@.user.skip(i as int).drop_first() =~= self@.user.skip(i + 1));
            }
            if self.user[i].username == *name {
                return Some(&self.user[i]);
            }
            i = i + 1;
        }
        proof {
            assert(self@.user.skip(n as int) =~= Seq::<UserView>::empty());
        }
        None
    }

    /// The passwd records for the whole table, in table order.
    pub fn all_passwds(&self) -> (r: Vec<Passwd>)
        ensures
            r.deep_view() =~~= self@.user.map_values(|u: UserView| spec_passwd_of_user(u)),
    {
        let ghost target = self@.user.map_values(|u: UserView| spec_passwd_of_user(u));
        let mut r: Vec<Passwd> = Vec::new();
        let mut i: usize = 0;
        while i < self.user.len()
            invariant
                0 <= i <= self.user.len(),
                r.deep_view() =~~= self@.user.take(i as int).map_values(
                    |u: UserView| spec_passwd_of_user(u),
                ),
            decreases self.user.len() - i,
        {
            let p = self.user[i].to_passwd();
            let ghost pg = p;
            let ghost prev = r;
            r.push(p);
            proof {
                lemma_push_deep_view(prev, r, pg);
                assert(r.deep_view() =~~= self@.user.take(i + 1).map_values(
                    |u: UserView| spec_passwd_of_user(u),
                ));
            }
            i = i + 1;
        }
        proof {
            assert(self@.user.take(self.user.len() as int) =~= self@.user);
        }
        r
    }
}

} // verus!
