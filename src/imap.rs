use vstd::prelude::*;
use vstd::string::*;

use crate::address::{bare_address, parse_bare};
use crate::email::Email;
use crate::server::{Server, User};
use crate::text::{
    after_spaces, char_ieq, decimal, decimal_string, eq_ignore_case, ieq, split_at_first,
    split_first, strip_eol, strip_line_end, token, token_at, unquote, unquote_str, rest_after,
};

verus! {

/// State of one IMAP connection.
pub struct Session {
    /// Set once `LOGOUT` was received.
    pub logout: bool,
    /// Mail root of the user logged in, if any.
    pub maildir: Option<String>,
    /// A mailbox is selected.
    pub selected: bool,
}

/// The abstract state of an IMAP session.
pub struct SessionModel {
    pub logout: bool,
    pub maildir: Option<Seq<char>>,
    pub selected: bool,
}

pub open spec fn opt_string(o: Option<String>) -> Option<Seq<char>> {
    match o {
        Some(s) => Some(s@),
        None => None,
    }
}

impl View for Session {
    type V = SessionModel;

    open spec fn view(&self) -> SessionModel {
        SessionModel { logout: self.logout, maildir: opt_string(self.maildir), selected: self.selected }
    }
}

/// What the connection does after a command line.
pub enum ImapAction {
    /// Write the response.
    Reply(String),
    /// Check the password of the user with address `email`, then call
    /// `Session::login`.
    Login { tag: String, email: Email, address: String, password: String },
    /// Open the folder `name` stored at `path`, then call `Session::select_done`.
    Select { tag: String, name: String, path: String },
    /// Close the selected folder, then write the response.
    Close(String),
    /// Close the selected folder, then answer with `expunge_response`.
    Expunge { tag: String },
    /// Parse the attribute list `args`, then answer with `fetch_response`.
    Fetch { tag: String, args: String },
    /// Close the selected folder if there is one, write the response and
    /// end the connection.
    Logout(String),
}

/// The abstract form of an `ImapAction`.
pub enum ImapEffect {
    Reply(Seq<char>),
    Login { tag: Seq<char>, email: (Seq<char>, Seq<char>), address: Seq<char>, password: Seq<char> },
    Select { tag: Seq<char>, name: Seq<char>, path: Seq<char> },
    Close(Seq<char>),
    Expunge { tag: Seq<char> },
    Fetch { tag: Seq<char>, args: Seq<char> },
    Logout(Seq<char>),
}

impl View for ImapAction {
    type V = ImapEffect;

    open spec fn view(&self) -> ImapEffect {
        match self {
            ImapAction::Reply(s) => ImapEffect::Reply(s@),
            ImapAction::Login { tag, email, address, password } => ImapEffect::Login {
                tag: tag@,
                email: email@,
                address: address@,
                password: password@,
            },
            ImapAction::Select { tag, name, path } => ImapEffect::Select {
                tag: tag@,
                name: name@,
                path: path@,
            },
            ImapAction::Close(s) => ImapEffect::Close(s@),
            ImapAction::Expunge { tag } => ImapEffect::Expunge { tag: tag@ },
            ImapAction::Fetch { tag, args } => ImapEffect::Fetch { tag: tag@, args: args@ },
            ImapAction::Logout(s) => ImapEffect::Logout(s@),
        }
    }
}

/// Counts that an opened folder reports.
#[derive(Clone, Copy, Debug, PartialEq, Eq)]
pub struct FolderStatus {
    pub exists: u64,
    pub recent: u64,
    pub unseen: u64,
}

pub open spec fn bad_reply(tag: Seq<char>) -> Seq<char> {
    tag + " BAD Invalid command\r\n"@
}

pub open spec fn denied_reply(tag: Seq<char>) -> Seq<char> {
    tag + " NO invalid username or password\r\n"@
}

pub open spec fn bye_reply(tag: Seq<char>) -> Seq<char> {
    "* BYE Server logging out\r\n"@ + tag + " OK Server logged out\r\n"@
}

pub open spec fn capability_reply(tag: Seq<char>) -> Seq<char> {
    "* CAPABILITY IMAP4rev1\n"@ + tag + " OK Capability successful\n"@
}

pub open spec fn unimplemented_reply(tag: Seq<char>) -> Seq<char> {
    tag + " OK unimplemented\n"@
}

/// `i` is where the first occurrence of `p` in `s` begins.
pub open spec fn first_occurrence(s: Seq<char>, p: Seq<char>, i: int) -> bool {
    &&& 0 <= i && i + p.len() <= s.len()
    &&& s.subrange(i, i + p.len()) == p
    &&& forall|j: int| 0 <= j < i ==> #[trigger] s.subrange(j, j + p.len()) != p
}

/// The storage name of a mailbox: its first `INBOX` becomes `.`, the mail
/// root itself.
pub open spec fn mailbox_dir(name: Seq<char>) -> Seq<char> {
    if exists|i: int| first_occurrence(name, "INBOX"@, i) {
        let i = choose|i: int| first_occurrence(name, "INBOX"@, i);
        name.subrange(0, i) + "."@ + name.subrange(i + 5, name.len() as int)
    } else {
        name
    }
}

/// Where the mailbox `name` of the user with mail root `root` is stored.
pub open spec fn mailbox_path(root: Seq<char>, name: Seq<char>) -> Seq<char> {
    root + "/"@ + mailbox_dir(name)
}

/// The text before the first `c` of `s`, or all of `s`.
pub open spec fn before(s: Seq<char>, c: char) -> Seq<char> {
    match split_at_first(s, c) {
        Some((a, _b)) => a,
        None => s,
    }
}

/// The attribute list of a `FETCH` line: what follows the command word, up
/// to any newline or carriage return.
pub open spec fn fetch_args(l: Seq<char>) -> Seq<char> {
    match after_spaces(l, 2) {
        Some(rest) => before(before(rest, '\n'), '\r'),
        None => Seq::empty(),
    }
}

/// The tag of a line: its first token.
pub open spec fn tag_of(l: Seq<char>) -> Seq<char> {
    match token(l, 0) {
        Some(t) => t,
        None => Seq::empty(),
    }
}

/// `verb` names the IMAP command `name`.
pub open spec fn is_cmd(verb: Option<Seq<char>>, name: Seq<char>) -> bool {
    verb matches Some(v) && ieq(v, name)
}

/// The effect of one command line on an IMAP session: the next state and
/// what the connection does.
pub open spec fn imap_step(st: SessionModel, line: Seq<char>) -> (SessionModel, ImapEffect) {
    let l = strip_eol(line);
    let tag = tag_of(l);
    let verb = token(l, 1);
    let bad = ImapEffect::Reply(bad_reply(tag));
    if is_cmd(verb, "capability"@) {
        (st, ImapEffect::Reply(capability_reply(tag)))
    } else if is_cmd(verb, "login"@) {
        match (token(l, 2), token(l, 3)) {
            (Some(a), Some(p)) => match bare_address(unquote(a)) {
                Some(e) => (
                    st,
                    ImapEffect::Login { tag, email: e, address: unquote(a), password: unquote(p) },
                ),
                None => (st, ImapEffect::Reply(denied_reply(tag))),
            },
            _ => (st, bad),
        }
    } else if is_cmd(verb, "logout"@) {
        (SessionModel { logout: true, ..st }, ImapEffect::Logout(bye_reply(tag)))
    } else if is_cmd(verb, "select"@) {
        match (token(l, 2), st.maildir) {
            (Some(n), Some(root)) => (
                st,
                ImapEffect::Select { tag, name: unquote(n), path: mailbox_path(root, unquote(n)) },
            ),
            _ => (st, bad),
        }
    } else if is_cmd(verb, "create"@) || is_cmd(verb, "delete"@) {
        match token(l, 2) {
            Some(_n) => (st, ImapEffect::Reply(unimplemented_reply(tag))),
            None => (st, bad),
        }
    } else if is_cmd(verb, "list"@) {
        match (token(l, 2), token(l, 3)) {
            (Some(r), Some(m)) => if unquote(m).len() == 0 {
                (
                    st,
                    ImapEffect::Reply(
                        "* LIST (\\Noselect) \"/\" \""@ + unquote(r) + "\"\n"@ + tag
                            + " OK List successful\n"@,
                    ),
                )
            } else {
                (st, ImapEffect::Reply("OK unimplemented\n"@))
            },
            _ => (st, bad),
        }
    } else if is_cmd(verb, "close"@) {
        if st.selected {
            (st, ImapEffect::Close(tag + " OK close completed\n"@))
        } else {
            (st, bad)
        }
    } else if is_cmd(verb, "expunge"@) {
        if st.selected {
            (st, ImapEffect::Expunge { tag })
        } else {
            (st, bad)
        }
    } else if is_cmd(verb, "fetch"@) {
        if st.selected {
            (st, ImapEffect::Fetch { tag, args: fetch_args(l) })
        } else {
            (st, bad)
        }
    } else {
        (st, bad)
    }
}

/// The response to a `LOGIN` whose credentials were checked.
pub open spec fn login_reply(tag: Seq<char>, address: Seq<char>, granted: bool) -> Seq<char> {
    if granted {
        tag + " OK logged in successfully as "@ + address + "\r\n"@
    } else {
        denied_reply(tag)
    }
}

/// Access is granted when the directory holds the user and the password
/// matched.
pub open spec fn login_granted(users: Seq<User>, account: Option<usize>, password_ok: bool) -> bool {
    account matches Some(i) && i < users.len() && password_ok
}

/// The effect of a checked `LOGIN` on the session, and its response.
pub open spec fn login_effect(
    st: SessionModel,
    users: Seq<User>,
    tag: Seq<char>,
    address: Seq<char>,
    account: Option<usize>,
    password_ok: bool,
) -> (SessionModel, Seq<char>) {
    if login_granted(users, account, password_ok) {
        (
            SessionModel { maildir: Some(users[account->Some_0 as int].mail_dir@), ..st },
            login_reply(tag, address, true),
        )
    } else {
        (SessionModel { maildir: None, ..st }, login_reply(tag, address, false))
    }
}

/// A `LOGIN` for an address that the directory lacks and one with a wrong
/// password get the same response and leave the session alike.
pub proof fn lemma_login_denial_uniform(
    st: SessionModel,
    users: Seq<User>,
    tag: Seq<char>,
    address: Seq<char>,
    known: usize,
    any_password_ok: bool,
)
    ensures
        login_effect(st, users, tag, address, None, any_password_ok) == login_effect(
            st,
            users,
            tag,
            address,
            Some(known),
            false,
        ),
        login_effect(st, users, tag, address, None, any_password_ok).1 == denied_reply(tag),
{
}

/// `SELECT` before a successful `LOGIN` gets the tagged BAD response.
pub proof fn lemma_select_needs_login(st: SessionModel, line: Seq<char>)
    requires
        st.maildir is None,
        is_cmd(token(strip_eol(line), 1), "select"@),
    ensures
        imap_step(st, line) == (st, ImapEffect::Reply(bad_reply(tag_of(strip_eol(line))))),
{
    reveal_strlit("select");
    reveal_strlit("capability");
    reveal_strlit("login");
    reveal_strlit("logout");
    let v = token(strip_eol(line), 1)->Some_0;
    assert(char_ieq(v[0], 's'));
}

/// `LOGOUT` in any state gets the two-line goodbye and ends the session.
pub proof fn lemma_logout_any_state(st: SessionModel, line: Seq<char>)
    requires
        is_cmd(token(strip_eol(line), 1), "logout"@),
    ensures
        imap_step(st, line) == (
            SessionModel { logout: true, ..st },
            ImapEffect::Logout(bye_reply(tag_of(strip_eol(line)))),
        ),
        imap_step(st, line).0.logout,
{
    reveal_strlit("capability");
    reveal_strlit("login");
    reveal_strlit("logout");
    let v = token(strip_eol(line), 1)->Some_0;
    assert(char_ieq(v[0], 'l'));
}

/// `EXPUNGE` with no mailbox selected gets the tagged BAD response and
/// nothing else: no message is reported removed.
pub proof fn lemma_expunge_needs_selection(st: SessionModel, line: Seq<char>)
    requires
        !st.selected,
        is_cmd(token(strip_eol(line), 1), "expunge"@),
    ensures
        imap_step(st, line) == (st, ImapEffect::Reply(bad_reply(tag_of(strip_eol(line))))),
{
    reveal_strlit("expunge");
    reveal_strlit("capability");
    reveal_strlit("login");
    reveal_strlit("logout");
    reveal_strlit("select");
    reveal_strlit("create");
    reveal_strlit("delete");
    reveal_strlit("list");
    reveal_strlit("close");
    let v = token(strip_eol(line), 1)->Some_0;
    assert(char_ieq(v[0], 'e'));
}

/// The untagged lines that list the removed messages, in the folder's order.
pub open spec fn expunge_lines(removed: Seq<u64>) -> Seq<char>
    decreases removed.len(),
{
    if removed.len() == 0 {
        Seq::empty()
    } else {
        expunge_lines(removed.drop_last()) + "* "@ + decimal(removed.last() as nat) + " EXPUNGE\n"@
    }
}

/// The response to a successful `SELECT`.
pub open spec fn select_reply(tag: Seq<char>, f: FolderStatus) -> Seq<char> {
    "* FLAGS (\\Answered \\Deleted \\Draft \\Flagged \\Seen)\n"@ + "* "@ + decimal(f.exists as nat)
        + " EXISTS\n"@ + "* "@ + decimal(f.recent as nat) + " RECENT\n"@ + "* OK UNSEEN "@
        + decimal(f.unseen as nat) + "\n"@
        + "* PERMANENTFLAGS (\\Answered \\Deleted \\Draft \\Flagged \\Seen) Permanent flags\n"@ + tag
        + " OK [READ-WRITE] SELECT command was successful\n"@
}

/// Compares two strings exactly.
fn same_text(a: &str, b: &str) -> (r: bool)
    ensures
        r == (a@ == b@),
{
    let n = a.unicode_len();
    if n != b.unicode_len() {
        return false;
    }
    let mut i: usize = 0;
    while i < n
        invariant
            n == a@.len(),
            n == b@.len(),
            i <= n,
            forall|j: int| 0 <= j < i ==> a@[j] == b@[j],
        decreases n - i,
    {
        if a.get_char(i) != b.get_char(i) {
            return false;
        }
        i += 1;
    }
    assert(a@ =~= b@);
    true
}

/// The storage name of the mailbox `name`.
pub fn mailbox_dir_of(name: &str) -> (r: String)
    ensures
        r@ == mailbox_dir(name@),
{
    let pat = "INBOX";
    proof {
        reveal_strlit("INBOX");
    }
    let n = name.unicode_len();
    let mut i: usize = 0;
    while 5 <= n && i <= n - 5
        invariant
            n == name@.len(),
            i <= n,
            pat@ == "INBOX"@,
            pat@.len() == 5,
            forall|j: int| 0 <= j < i ==> #[trigger] name@.subrange(j, j + 5) != pat@,
        decreases n - i,
    {
        let w = name.substring_char(i, i + 5);
        if same_text(w, pat) {
            let mut r = String::from_str(name.substring_char(0, i));
            r.append(".");
            r.append(name.substring_char(i + 5, n));
            proof {
                assert(first_occurrence(name@, "INBOX"@, i as int));
                let k = choose|k: int| first_occurrence(name@, "INBOX"@, k);
                if k < i {
                    assert(name@.subrange(k, k + 5) != pat@);
                } else if k > i {
                    assert(name@.subrange(i as int, i + 5) != pat@);
                }
            }
            return r;
        }
        i += 1;
    }
    proof {
        if exists|k: int| first_occurrence(name@, "INBOX"@, k) {
            let k = choose|k: int| first_occurrence(name@, "INBOX"@, k);
            assert(name@.subrange(k, k + 5) != pat@);
        }
    }
    String::from_str(name)
}

fn text_before<'a>(s: &'a str, c: char) -> (r: &'a str)
    ensures
        r@ == before(s@, c),
{
    match split_first(s, c) {
        Some((a, _b)) => a,
        None => s,
    }
}

fn tagged(tag: &str, text: &str) -> (r: String)
    ensures
        r@ == tag@ + text@,
{
    let mut s = String::from_str(tag);
    s.append(text);
    s
}

/// The response to `EXPUNGE`: one untagged line for each removed message,
/// in the order given, then the tagged completion.
pub fn expunge_response(tag: &str, removed: &Vec<u64>) -> (r: String)
    ensures
        r@ == expunge_lines(removed@) + tag@ + " OK expunge completed"@,
{
    let mut res = String::new();
    let mut i: usize = 0;
    while i < removed.len()
        invariant
            i <= removed.len(),
            res@ == expunge_lines(removed@.subrange(0, i as int)),
        decreases removed.len() - i,
    {
        res.append("* ");
        let d = decimal_string(removed[i]);
        res.append(d.as_str());
        res.append(" EXPUNGE\n");
        proof {
            assert(removed@.subrange(0, i + 1).drop_last() =~= removed@.subrange(0, i as int));
        }
        i += 1;
    }
    assert(removed@.subrange(0, i as int) =~= removed@);
    res.append(tag);
    res.append(" OK expunge completed");
    res
}

/// The response to `FETCH` once its attribute list was parsed, or failed to.
pub fn fetch_response(tag: &str, parsed: bool) -> (r: String)
    ensures
        parsed ==> r@ == unimplemented_reply(tag@),
        !parsed ==> r@ == bad_reply(tag@),
{
    if parsed {
        tagged(tag, " OK unimplemented\n")
    } else {
        tagged(tag, " BAD Invalid command\r\n")
    }
}

impl Session {
    pub fn new() -> (r: Session)
        ensures
            !r@.logout,
            r@.maildir is None,
            !r@.selected,
    {
        Session { logout: false, maildir: None, selected: false }
    }

    /// Where the mailbox `mailbox_name` of the logged-in user is stored;
    /// nothing before a successful `LOGIN`.
    pub fn select_mailbox(&self, mailbox_name: &str) -> (r: Option<String>)
        ensures
            match self@.maildir {
                None => r is None,
                Some(root) => r matches Some(p) && p@ == mailbox_path(root, mailbox_name@),
            },
    {
        match &self.maildir {
            None => None,
            Some(root) => {
                let mut path = root.clone();
                path.append("/");
                let dir = mailbox_dir_of(mailbox_name);
                path.append(dir.as_str());
                Some(path)
            },
        }
    }

    /// Commands are read until `LOGOUT`.
    pub fn accepts_input(&self) -> (r: bool)
        ensures
            r == !self@.logout,
    {
        !self.logout
    }

    /// Handles one command line (with or without its line terminator).
    pub fn interpret(&mut self, line: &str) -> (r: ImapAction)
        ensures
            final(self)@ == imap_step(old(self)@, line@).0,
            r@ =~~= imap_step(old(self)@, line@).1,
    {
        proof {
            reveal_strlit("");
        }
        let l = strip_line_end(line);
        let tag = match token_at(l, 0) {
            Some(t) => t,
            None => {
                assert(""@ =~= Seq::<char>::empty());
                ""
            },
        };
        let bad = tagged(tag, " BAD Invalid command\r\n");
        let verb = match token_at(l, 1) {
            Some(v) => v,
            None => {
                return ImapAction::Reply(bad);
            },
        };
        if eq_ignore_case(verb, "capability") {
            let mut s = String::from_str("* CAPABILITY IMAP4rev1\n");
            s.append(tag);
            s.append(" OK Capability successful\n");
            ImapAction::Reply(s)
        } else if eq_ignore_case(verb, "login") {
            match (token_at(l, 2), token_at(l, 3)) {
                (Some(a), Some(p)) => {
                    let address = unquote_str(a);
                    let password = unquote_str(p);
                    match parse_bare(address) {
                        Some(e) => ImapAction::Login {
                            tag: String::from_str(tag),
                            email: e,
                            address: String::from_str(address),
                            password: String::from_str(password),
                        },
                        None => ImapAction::Reply(tagged(tag, " NO invalid username or password\r\n")),
                    }
                },
                _ => ImapAction::Reply(bad),
            }
        } else if eq_ignore_case(verb, "logout") {
            self.logout = true;
            let mut s = String::from_str("* BYE Server logging out\r\n");
            s.append(tag);
            s.append(" OK Server logged out\r\n");
            ImapAction::Logout(s)
        } else if eq_ignore_case(verb, "select") {
            match token_at(l, 2) {
                Some(n) => {
                    let name = unquote_str(n);
                    match self.select_mailbox(name) {
                        Some(path) => ImapAction::Select {
                            tag: String::from_str(tag),
                            name: String::from_str(name),
                            path,
                        },
                        None => ImapAction::Reply(bad),
                    }
                },
                None => ImapAction::Reply(bad),
            }
        } else if eq_ignore_case(verb, "create") || eq_ignore_case(verb, "delete") {
            match token_at(l, 2) {
                Some(_n) => ImapAction::Reply(tagged(tag, " OK unimplemented\n")),
                None => ImapAction::Reply(bad),
            }
        } else if eq_ignore_case(verb, "list") {
            match (token_at(l, 2), token_at(l, 3)) {
                (Some(r), Some(m)) => {
                    let mailbox = unquote_str(m);
                    if mailbox.unicode_len() == 0 {
                        let mut s = String::from_str("* LIST (\\Noselect) \"/\" \"");
                        s.append(unquote_str(r));
                        s.append("\"\n");
                        s.append(tag);
                        s.append(" OK List successful\n");
                        ImapAction::Reply(s)
                    } else {
                        ImapAction::Reply(String::from_str("OK unimplemented\n"))
                    }
                },
                _ => ImapAction::Reply(bad),
            }
        } else if eq_ignore_case(verb, "close") {
            if self.selected {
                ImapAction::Close(tagged(tag, " OK close completed\n"))
            } else {
                ImapAction::Reply(bad)
            }
        } else if eq_ignore_case(verb, "expunge") {
            if self.selected {
                ImapAction::Expunge { tag: String::from_str(tag) }
            } else {
                ImapAction::Reply(bad)
            }
        } else if eq_ignore_case(verb, "fetch") {
            if self.selected {
                let args = match rest_after(l, 2) {
                    Some(rest) => text_before(text_before(rest, '\n'), '\r'),
                    None => {
                        assert(""@ =~= Seq::<char>::empty());
                        ""
                    },
                };
                ImapAction::Fetch { tag: String::from_str(tag), args: String::from_str(args) }
            } else {
                ImapAction::Reply(bad)
            }
        } else {
            ImapAction::Reply(bad)
        }
    }

    /// Ends a `LOGIN`: `account` is what the directory holds for the address,
    /// `password_ok` whether the password matched that user's credential.
    /// The user's mail root is recorded only when both hold; otherwise the
    /// session is logged out and the response does not say which one failed.
    pub fn login(
        &mut self,
        serv: &Server,
        tag: &str,
        address: &str,
        account: Option<usize>,
        password_ok: bool,
    ) -> (r: String)
        ensures
            (final(self)@, r@) == login_effect(
                old(self)@,
                serv.users@,
                tag@,
                address@,
                account,
                password_ok,
            ),
    {
        match account {
            Some(i) => {
                if password_ok && i < serv.users.len() {
                    self.maildir = Some(serv.users[i].mail_dir.clone());
                    let mut s = String::from_str(tag);
                    s.append(" OK logged in successfully as ");
                    s.append(address);
                    s.append("\r\n");
                    return s;
                }
            },
            None => {},
        }
        self.maildir = None;
        tagged(tag, " NO invalid username or password\r\n")
    }

    /// Ends a `SELECT`: `status` holds the counts of the opened folder, or
    /// nothing when it could not be opened, which leaves the state unchanged.
    pub fn select_done(&mut self, tag: &str, status: Option<FolderStatus>) -> (r: String)
        ensures
            match status {
                Some(f) => final(self)@ == (SessionModel { selected: true, ..old(self)@ })
                    && r@ == select_reply(tag@, f),
                None => final(self)@ == old(self)@ && r@ == tag@ + " NO error finding mailbox\n"@,
            },
    {
        match status {
            None => tagged(tag, " NO error finding mailbox\n"),
            Some(f) => {
                self.selected = true;
                let mut s = String::from_str("* FLAGS (\\Answered \\Deleted \\Draft \\Flagged \\Seen)\n");
                s.append("* ");
                s.append(decimal_string(f.exists).as_str());
                s.append(" EXISTS\n");
                s.append("* ");
                s.append(decimal_string(f.recent).as_str());
                s.append(" RECENT\n");
                s.append("* OK UNSEEN ");
                s.append(decimal_string(f.unseen).as_str());
                s.append("\n");
                s.append("* PERMANENTFLAGS (\\Answered \\Deleted \\Draft \\Flagged \\Seen) Permanent flags\n");
                s.append(tag);
                s.append(" OK [READ-WRITE] SELECT command was successful\n");
                s
            },
        }
    }
}

} // verus!
