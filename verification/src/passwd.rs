//! The resolved POSIX passwd record: the one shape this library returns
//! across the system boundary.

use vstd::prelude::*;

verus! {

/// A resolved passwd record. The password field always holds the fixed
/// placeholder `"x"`: the directory never exposes credential material here.
#[derive(Clone, Debug, PartialEq)]
pub struct Passwd {
    pub name: String,
    pub passwd: String,
    pub uid: u32,
    pub gid: u32,
    pub gecos: String,
    pub dir: String,
    pub shell: String,
}

#[verifier::ext_equal]
pub struct PasswdView {
    pub name: Seq<char>,
    pub passwd: Seq<char>,
    pub uid: u32,
    pub gid: u32,
    pub gecos: Seq<char>,
    pub dir: Seq<char>,
    pub shell: Seq<char>,
}

impl View for Passwd {
    type V = PasswdView;

    open spec fn view(&self) -> PasswdView {
        PasswdView {
            name: self.name@,
            passwd: self.passwd@,
            uid: self.uid,
            gid: self.gid,
            gecos: self.gecos@,
            dir: self.dir@,
            shell: self.shell@,
        }
    }
}

impl DeepView for Passwd {
    type V = PasswdView;

    open spec fn deep_view(&self) -> PasswdView {
        self.view()
    }
}

impl Passwd {
    /// An identical record, with a contract (the derived `Clone` carries
    /// none).
    pub fn duplicate(&self) -> (p: Passwd)
        ensures
            p@ =~= self@,
    {
        Passwd {
            name: self.name.clone(),
            passwd: self.passwd.clone(),
            uid: self.uid,
            gid: self.gid,
            gecos: self.gecos.clone(),
            dir: self.dir.clone(),
            shell: self.shell.clone(),
        }
    }
}

/// A home directory path is derived deterministically: `parent/login_name`.
pub open spec fn spec_home_directory(parent: Seq<char>, username: Seq<char>) -> Seq<char> {
    parent + "/"@ + username
}

/// Joins the configured home root and a login name into a home path.
pub fn home_directory(parent: &String, username: &String) -> (dir: String)
    ensures
        dir@ == spec_home_directory(parent@, username@),
{
    let mut dir = parent.clone();
    dir.append("/");
    dir.append(username.as_str());
    dir
}

} // verus!
