//! The per-connection session state machine: registration, command
//! parsing, and chat relay. The transport loop outside feeds it one line at
//! a time and performs the replies it returns; every decision is made here.
//!
//! A session is `AwaitingName` until its first line arrives, then `Active`
//! until end-of-stream or `/quit` drives it to `Terminated`; there is no way
//! back to `AwaitingName`.

use vstd::prelude::*;

use crate::message::Message;
use crate::server::ChatServer;
use crate::server::publish_effect;
use crate::server::spec_register;
use crate::text::dec_rep;
use crate::text::str_eq;
use crate::text::trim;
use crate::text::trim_spec;
use crate::text::usize_to_string;

verus! {

/// Where one connection stands in its lifecycle.
pub enum SessionState {
    AwaitingName,
    Active { username: String },
    Terminated,
}

/// The prompt sent as soon as a connection is accepted.
pub fn prompt_line() -> (r: String)
    ensures
        r@ == "\n Enter Your username \n"@,
{
    String::from_str("\n Enter Your username \n")
}

/// Drives a session out of `AwaitingName` on its first line.
///
/// A closed stream terminates the session silently; a line that is empty
/// after trimming is rejected and terminates the session without
/// registering; any other line registers its trimmed text as the display
/// name, which publishes the join, and the session becomes `Active`.
pub fn register_session(server: &mut ChatServer, addr: u64, first_line: Option<String>) -> (r: (
    SessionState,
    Vec<String>,
))
    requires
        old(server).wf(),
    ensures
        final(server).wf(),
        ({
            match first_line {
                Option::None => r.0 is Terminated && r.1@.len() == 0 && *final(server) == *old(
                    server,
                ),
                Option::Some(line) => {
                    let name = trim_spec(line@);
                    if name.len() == 0 {
                        &&& r.0 is Terminated
                        &&& r.1@.len() == 1
                        &&& r.1@[0]@ == "\n username can't be empty! \n"@
                        &&& *final(server) == *old(server)
                    } else {
                        &&& (r.0 matches SessionState::Active { username } && username@ == name
                            && (final(server).users(), final(server).history()) == spec_register(
                            old(server).users(),
                            old(server).history(),
                            addr,
                            username,
                        ) && publish_effect(
                            old(server).bus,
                            final(server).bus,
                            Message::UserJoined(username),
                        ))
                        &&& r.1@.len() == 1
                        &&& r.1@[0]@ == "\n:: Welcome to the chat ::\n"@
                    }
                },
            }
        }),
{
    match first_line {
        Option::None => (SessionState::Terminated, Vec::new()),
        Option::Some(line) => {
            let username = trim(line.as_str());
            if username.as_str().unicode_len() == 0 {
                let mut replies: Vec<String> = Vec::new();
                replies.push(String::from_str("\n username can't be empty! \n"));
                (SessionState::Terminated, replies)
            } else {
                server.add_user(username.clone(), addr);
                let mut replies: Vec<String> = Vec::new();
                replies.push(String::from_str("\n:: Welcome to the chat ::\n"));
                (SessionState::Active { username }, replies)
            }
        },
    }
}

/// Handles one line from an `Active` session.
///
/// Returns the replies owed to this client, in order, and whether the
/// session ends. Empty lines are ignored; a line starting with `/` is a
/// command and never becomes chat; any other line is published to every
/// subscriber as `Chat` with the trimmed text.
pub fn handle_active_line(server: &mut ChatServer, username: &String, line: &String) -> (r: (
    Vec<String>,
    bool,
))
    requires
        old(server).wf(),
    ensures
        final(server).wf(),
        ({
            let t = trim_spec(line@);
            if t.len() == 0 {
                r.1 == false && r.0@.len() == 0 && *final(server) == *old(server)
            } else if t == "/quit"@ {
                r.1 == true && r.0@.len() == 1 && r.0@[0]@ == "GoodBye!\n"@ && *final(server)
                    == *old(server)
            } else if t == "/users"@ {
                r.1 == false && r.0@.len() == 1 && r.0@[0]@ == "\n"@ + dec_rep(
                    old(server).users().dom().len(),
                ) + " users online\n"@ && *final(server) == *old(server)
            } else if t == "/help"@ {
                r.1 == false && r.0@.len() == 4 && r.0@[0]@ == "Commands::\n"@ && r.0@[1]@
                    == "/quit - Leave the server\n"@ && r.0@[2]@
                    == "/users - Get the count of users online \n"@ && r.0@[3]@
                    == "/help - For Guide\n"@ && *final(server) == *old(server)
            } else if t[0] == '/' {
                r.1 == false && r.0@.len() == 1 && r.0@[0]@
                    == "Unknown command.\nType /help for a guide.\n"@ && *final(server) == *old(
                    server,
                )
            } else {
                &&& r.1 == false
                &&& r.0@.len() == 0
                &&& final(server).users() == old(server).users()
                &&& (final(server).history().last() matches Message::Chat { username: u, msg }
                    && u == *username && msg@ == t)
                &&& publish_effect(
                    old(server).bus,
                    final(server).bus,
                    final(server).history().last(),
                )
            }
        }),
{
    let trimmed = trim(line.as_str());
    if trimmed.as_str().unicode_len() == 0 {
        return (Vec::new(), false);
    }
    if trimmed.as_str().get_char(0) == '/' {
        if str_eq(trimmed.as_str(), "/quit") {
            let mut replies: Vec<String> = Vec::new();
            replies.push(String::from_str("GoodBye!\n"));
            (replies, true)
        } else if str_eq(trimmed.as_str(), "/users") {
            let count = server.user_count();
            let digits = usize_to_string(count);
            let mut msg = String::from_str("\n");
            msg.append(digits.as_str());
            msg.append(" users online\n");
            let mut replies: Vec<String> = Vec::new();
            replies.push(msg);
            (replies, false)
        } else if str_eq(trimmed.as_str(), "/help") {
            let mut replies: Vec<String> = Vec::new();
            replies.push(String::from_str("Commands::\n"));
            replies.push(String::from_str("/quit - Leave the server\n"));
            replies.push(String::from_str("/users - Get the count of users online \n"));
            replies.push(String::from_str("/help - For Guide\n"));
            (replies, false)
        } else {
            let mut replies: Vec<String> = Vec::new();
            replies.push(String::from_str("Unknown command.\nType /help for a guide.\n"));
            (replies, false)
        }
    } else {
        proof {
            reveal_strlit("/quit");
            reveal_strlit("/users");
            reveal_strlit("/help");
        }
        server.broacast(Message::Chat { username: username.clone(), msg: trimmed });
        (Vec::new(), false)
    }
}

} // verus!
