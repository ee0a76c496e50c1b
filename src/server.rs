use vstd::prelude::*;

use crate::email::Email;

verus! {

/// A user of the mail store as the sessions see it: the address it logs in
/// and receives mail under, and the root directory of its mail.
pub struct User {
    pub email: Email,
    pub mail_dir: String,
}

impl User {
    pub fn new(email: Email, mail_dir: String) -> (r: User)
        ensures
            r.email@ == email@,
            r.mail_dir@ == mail_dir@,
    {
        User { email, mail_dir }
    }
}

/// Server identity and user directory, shared read-only by every session.
pub struct Server {
    pub host: String,
    pub users: Vec<User>,
}

/// Index of the last of the first `n` users whose address is `e`.
pub open spec fn last_match(users: Seq<User>, e: (Seq<char>, Seq<char>), n: int) -> Option<int>
    decreases n,
{
    if n <= 0 {
        None
    } else if users[n - 1].email@ == e {
        Some(n - 1)
    } else {
        last_match(users, e, n - 1)
    }
}

/// The user that the directory holds for address `e`: of several entries
/// with that address, the one given last.
pub open spec fn find_user(users: Seq<User>, e: (Seq<char>, Seq<char>)) -> Option<int> {
    last_match(users, e, users.len() as int)
}

pub proof fn lemma_last_match_bounds(users: Seq<User>, e: (Seq<char>, Seq<char>), n: int)
    requires
        n <= users.len(),
    ensures
        match last_match(users, e, n) {
            Some(i) => 0 <= i < n && users[i].email@ == e,
            None => forall|j: int| 0 <= j < n ==> users[j].email@ != e,
        },
    decreases n,
{
    if n > 0 {
        lemma_last_match_bounds(users, e, n - 1);
    }
}

impl Server {
    pub fn new(host: String, users: Vec<User>) -> (r: Server)
        ensures
            r.host@ == host@,
            r.users@ == users@,
    {
        Server { host, users }
    }

    pub fn host(&self) -> (r: &String)
        ensures
            r@ == self.host@,
    {
        &self.host
    }

    /// Looks up the user with address `e`.
    pub fn lookup(&self, e: &Email) -> (r: Option<usize>)
        ensures
            match r {
                Some(i) => find_user(self.users@, e@) == Some(i as int),
                None => find_user(self.users@, e@) is None,
            },
            r matches Some(i) ==> i < self.users.len() && self.users@[i as int].email@ == e@,
    {
        let mut i: usize = self.users.len();
        while i > 0
            invariant
                i <= self.users.len(),
                last_match(self.users@, e@, i as int) == find_user(self.users@, e@),
            decreases i,
        {
            if self.users[i - 1].email.same(e) {
                proof {
                    lemma_last_match_bounds(self.users@, e@, self.users.len() as int);
                }
                return Some(i - 1);
            }
            i -= 1;
        }
        proof {
            lemma_last_match_bounds(self.users@, e@, self.users.len() as int);
        }
        None
    }
}

} // verus!
