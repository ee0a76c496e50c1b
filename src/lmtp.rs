use vstd::prelude::*;
use vstd::string::*;

use crate::address::{grab_email, opt_email, path_address};
use crate::email::{address_text, Email};
use crate::server::{find_user, Server, User};
use crate::text::{char_ieq, eq_ignore_case, ieq, strip_eol, strip_line_end, token, token_at};

verus! {

/// Envelope state of one LMTP connection.
pub struct Lmtp {
    /// Sender given by the last successful `MAIL`.
    pub rev_path: Option<Email>,
    /// Recipients, as indices into the server's user directory.
    pub to_path: Vec<usize>,
    /// Message text gathered in the data phase.
    pub data: String,
    /// Set once `QUIT` was received.
    pub quit: bool,
}

/// The abstract state of an LMTP session.
pub struct LmtpModel {
    pub rev_path: Option<(Seq<char>, Seq<char>)>,
    pub to_path: Seq<usize>,
    pub data: Seq<char>,
    pub quit: bool,
}

impl View for Lmtp {
    type V = LmtpModel;

    open spec fn view(&self) -> LmtpModel {
        LmtpModel {
            rev_path: opt_email(self.rev_path),
            to_path: self.to_path@,
            data: self.data@,
            quit: self.quit,
        }
    }
}

/// What the connection does after a command line.
pub enum LmtpAction {
    /// Write the response and read the next command.
    Reply(String),
    /// Write the prompt and gather the message lines.
    Data(String),
}

/// What became of the delivery to one recipient.
#[derive(Clone, Copy, Debug, PartialEq, Eq)]
pub enum RecipientOutcome {
    /// The message was written and flushed to a new file.
    Stored,
    /// Creating, writing or flushing the file failed.
    StoreFailed,
    /// The system clock could not be read.
    ClockFailed,
}

pub open spec fn invalid_reply() -> Seq<char> {
    "500 Invalid command\r\n"@
}

pub open spec fn ok_reply() -> Seq<char> {
    "250 OK\r\n"@
}

pub open spec fn data_prompt() -> Seq<char> {
    "354 Start mail input; end with <CRLF>.<CRLF>\r\n"@
}

pub open spec fn no_recipients_reply() -> Seq<char> {
    "503 Bad sequence - no recipients"@
}

/// The status line for one recipient.
pub open spec fn outcome_line(o: RecipientOutcome) -> Seq<char> {
    match o {
        RecipientOutcome::Stored => "250 OK\r\n"@,
        RecipientOutcome::StoreFailed => "451 Error in processing.\r\n"@,
        RecipientOutcome::ClockFailed => "555 UNIX time error\r\n"@,
    }
}

/// The status lines of all recipients, in recipient order.
pub open spec fn outcome_lines(os: Seq<RecipientOutcome>) -> Seq<char>
    decreases os.len(),
{
    if os.len() == 0 {
        Seq::empty()
    } else {
        outcome_lines(os.drop_last()) + outcome_line(os.last())
    }
}

/// The response to a finished data phase.
pub open spec fn delivery_reply(to_path: Seq<usize>, os: Seq<RecipientOutcome>) -> Seq<char> {
    if to_path.len() == 0 {
        no_recipients_reply()
    } else {
        outcome_lines(os)
    }
}

/// `verb` names the LMTP command `name`.
pub open spec fn is_verb(verb: Option<Seq<char>>, name: Seq<char>) -> bool {
    verb matches Some(v) && ieq(v, name)
}

/// The effect of one command line on an LMTP session: the next state,
/// whether the data phase begins, and the response text.
pub open spec fn lmtp_step(st: LmtpModel, host: Seq<char>, users: Seq<User>, line: Seq<char>) -> (
    LmtpModel,
    bool,
    Seq<char>,
) {
    let l = strip_eol(line);
    let verb = token(l, 0);
    let arg = token(l, 1);
    if is_verb(verb, "lhlo"@) {
        match arg {
            Some(d) => (st, false, "250 "@ + d + "\r\n"@),
            None => (st, false, invalid_reply()),
        }
    } else if is_verb(verb, "rset"@) {
        (LmtpModel { rev_path: None, to_path: Seq::empty(), ..st }, false, ok_reply())
    } else if is_verb(verb, "noop"@) {
        (st, false, ok_reply())
    } else if is_verb(verb, "quit"@) {
        (LmtpModel { quit: true, ..st }, false, "221 "@ + host + " Closing connection\r\n"@)
    } else if is_verb(verb, "mail"@) {
        match path_address(arg) {
            Some(e) => (LmtpModel { rev_path: Some(e), ..st }, false, ok_reply()),
            None => (st, false, invalid_reply()),
        }
    } else if is_verb(verb, "rcpt"@) {
        if st.rev_path is None {
            (st, false, invalid_reply())
        } else {
            match path_address(arg) {
                None => (st, false, invalid_reply()),
                Some(e) => match find_user(users, e) {
                    None => (st, false, "550 No such user "@ + address_text(e.0, e.1) + "\r\n"@),
                    Some(i) => (
                        LmtpModel { to_path: st.to_path.push(i as usize), ..st },
                        false,
                        ok_reply(),
                    ),
                },
            }
        }
    } else if is_verb(verb, "data"@) {
        (st, true, data_prompt())
    } else {
        (st, false, invalid_reply())
    }
}

/// A data-phase line that ends the message.
pub open spec fn is_terminator(l: Seq<char>) -> bool {
    l.len() == 1 && l[0] == '.'
}

/// Every recipient is an entry of a directory with `n` users.
pub open spec fn recipients_within(to_path: Seq<usize>, n: nat) -> bool {
    forall|i: int| 0 <= i < to_path.len() ==> to_path[i] < n
}

/// `RCPT` before any successful `MAIL` gets the generic invalid-command
/// response and leaves the session as it was, whatever its argument.
pub proof fn lemma_rcpt_needs_sender(st: LmtpModel, host: Seq<char>, users: Seq<User>, line: Seq<char>)
    requires
        st.rev_path is None,
        is_verb(token(strip_eol(line), 0), "rcpt"@),
    ensures
        lmtp_step(st, host, users, line) == (st, false, invalid_reply()),
{
    reveal_strlit("rcpt");
    reveal_strlit("lhlo");
    reveal_strlit("rset");
    reveal_strlit("noop");
    reveal_strlit("quit");
    reveal_strlit("mail");
    let v = token(strip_eol(line), 0)->Some_0;
    assert(char_ieq(v[0], 'r'));
    assert(char_ieq(v[1], 'c'));
}

fn reply(text: &str) -> (r: LmtpAction)
    ensures
        r matches LmtpAction::Reply(s) && s@ == text@,
{
    LmtpAction::Reply(String::from_str(text))
}

/// The status lines for the given outcomes, in order.
pub fn outcome_response(outcomes: &Vec<RecipientOutcome>) -> (r: String)
    ensures
        r@ == outcome_lines(outcomes@),
{
    let mut res = String::new();
    let mut i: usize = 0;
    while i < outcomes.len()
        invariant
            i <= outcomes.len(),
            res@ == outcome_lines(outcomes@.subrange(0, i as int)),
        decreases outcomes.len() - i,
    {
        let line = match outcomes[i] {
            RecipientOutcome::Stored => "250 OK\r\n",
            RecipientOutcome::StoreFailed => "451 Error in processing.\r\n",
            RecipientOutcome::ClockFailed => "555 UNIX time error\r\n",
        };
        res.append(line);
        proof {
            assert(outcomes@.subrange(0, i + 1).drop_last() =~= outcomes@.subrange(0, i as int));
        }
        i += 1;
    }
    assert(outcomes@.subrange(0, i as int) =~= outcomes@);
    res
}

impl Lmtp {
    pub fn new() -> (r: Lmtp)
        ensures
            r@.rev_path is None,
            r@.to_path.len() == 0,
            r@.data.len() == 0,
            !r@.quit,
    {
        Lmtp { rev_path: None, to_path: Vec::new(), data: String::new(), quit: false }
    }

    /// Handles one command line (with or without its line terminator).
    pub fn command(&mut self, serv: &Server, line: &str) -> (r: LmtpAction)
        ensures
            ({
                let (st, data, text) = lmtp_step(old(self)@, serv.host@, serv.users@, line@);
                &&& final(self)@ == st
                &&& match r {
                    LmtpAction::Reply(s) => !data && s@ == text,
                    LmtpAction::Data(s) => data && s@ == text,
                }
            }),
            old(self)@.rev_path is None && is_verb(token(strip_eol(line@), 0), "rcpt"@) ==> (
            final(self)@ == old(self)@ && (r matches LmtpAction::Reply(s) && s@ == invalid_reply())),
            recipients_within(old(self)@.to_path, serv.users.len() as nat) ==> recipients_within(
                final(self)@.to_path,
                serv.users.len() as nat,
            ),
    {
        proof {
            if old(self)@.rev_path is None && is_verb(token(strip_eol(line@), 0), "rcpt"@) {
                lemma_rcpt_needs_sender(old(self)@, serv.host@, serv.users@, line@);
            }
        }
        let l = strip_line_end(line);
        let verb = token_at(l, 0);
        let arg = token_at(l, 1);
        let v = match verb {
            Some(v) => v,
            None => {
                return reply("500 Invalid command\r\n");
            },
        };
        if eq_ignore_case(v, "lhlo") {
            match arg {
                Some(d) => {
                    let mut s = String::from_str("250 ");
                    s.append(d);
                    s.append("\r\n");
                    LmtpAction::Reply(s)
                },
                None => reply("500 Invalid command\r\n"),
            }
        } else if eq_ignore_case(v, "rset") {
            self.rev_path = None;
            self.to_path = Vec::new();
            reply("250 OK\r\n")
        } else if eq_ignore_case(v, "noop") {
            reply("250 OK\r\n")
        } else if eq_ignore_case(v, "quit") {
            self.quit = true;
            let mut s = String::from_str("221 ");
            s.append(serv.host.as_str());
            s.append(" Closing connection\r\n");
            LmtpAction::Reply(s)
        } else if eq_ignore_case(v, "mail") {
            match grab_email(arg) {
                Some(e) => {
                    self.rev_path = Some(e);
                    reply("250 OK\r\n")
                },
                None => reply("500 Invalid command\r\n"),
            }
        } else if eq_ignore_case(v, "rcpt") {
            if self.rev_path.is_none() {
                return reply("500 Invalid command\r\n");
            }
            match grab_email(arg) {
                None => reply("500 Invalid command\r\n"),
                Some(e) => match serv.lookup(&e) {
                    None => {
                        let mut s = String::from_str("550 No such user ");
                        let t = e.to_string();
                        s.append(t.as_str());
                        s.append("\r\n");
                        LmtpAction::Reply(s)
                    },
                    Some(i) => {
                        self.to_path.push(i);
                        reply("250 OK\r\n")
                    },
                },
            }
        } else if eq_ignore_case(v, "data") {
            LmtpAction::Data(String::from_str("354 Start mail input; end with <CRLF>.<CRLF>\r\n"))
        } else {
            reply("500 Invalid command\r\n")
        }
    }

    /// Takes one line of the data phase. Returns `true` on the line `.`, which
    /// ends the message and is not kept; any other line is kept with a newline.
    pub fn data_line(&mut self, line: &str) -> (r: bool)
        ensures
            r == is_terminator(strip_eol(line@)),
            r ==> final(self)@ == old(self)@,
            !r ==> final(self)@ == (LmtpModel {
                data: old(self)@.data + strip_eol(line@) + "\n"@,
                ..old(self)@
            }),
    {
        let l = strip_line_end(line);
        if l.unicode_len() == 1 && l.get_char(0) == '.' {
            true
        } else {
            self.data.append(l);
            self.data.append("\n");
            false
        }
    }

    /// Ends the data phase: the response for the recipients, given what
    /// became of each delivery in recipient order. The gathered message is
    /// discarded.
    pub fn deliver(&mut self, outcomes: &Vec<RecipientOutcome>) -> (r: String)
        ensures
            r@ == delivery_reply(old(self)@.to_path, outcomes@),
            old(self)@.to_path.len() == 0 ==> r@ == no_recipients_reply(),
            final(self)@ == (LmtpModel { data: Seq::empty(), ..old(self)@ }),
    {
        let r = if self.to_path.len() == 0 {
            String::from_str("503 Bad sequence - no recipients")
        } else {
            outcome_response(outcomes)
        };
        self.data = String::new();
        r
    }
}

} // verus!
