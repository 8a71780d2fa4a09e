//! Chat events and their line rendering.
//!
//! A `Message` is an immutable value created by the directory (join/leave),
//! by a session relaying user input (chat), or by the server itself
//! (system notice). Rendering to a display line is a pure function of the
//! variant's fields, stated exactly by [`Message::spec_render`].

use vstd::prelude::*;

verus! {

/// One chat event, fanned out to every subscriber of the bus.
#[derive(Clone)]
pub enum Message {
    UserJoined(String),
    UserLeft(String),
    SystemMsg(String),
    Chat { username: String, msg: String },
}

impl Message {
    /// The exact display line for this event, as a sequence of characters.
    pub open spec fn spec_render(self) -> Seq<char> {
        match self {
            Message::UserJoined(username) => "A new user @"@ + username@ + " Joined"@,
            Message::UserLeft(username) => "*** User @"@ + username@ + " Left the chat"@,
            Message::SystemMsg(msg) => "[:: System ::] "@ + msg@,
            Message::Chat { username, msg } => "["@ + username@ + "]=> "@ + msg@,
        }
    }

    /// Renders the event to its display line.
    pub fn to_string(&self) -> (r: String)
        ensures
            r@ == self.spec_render(),
    {
        let mut r = String::new();
        match self {
            Message::UserJoined(username) => {
                r.append("A new user @");
                r.append(username.as_str());
                r.append(" Joined");
            }
            Message::UserLeft(username) => {
                r.append("*** User @");
                r.append(username.as_str());
                r.append(" Left the chat");
            }
            Message::SystemMsg(msg) => {
                r.append("[:: System ::] ");
                r.append(msg.as_str());
            }
            Message::Chat { username, msg } => {
                r.append("[");
                r.append(username.as_str());
                r.append("]=> ");
                r.append(msg.as_str());
            }
        }
        r
    }

    /// An exact copy of the event.
    pub fn duplicate(&self) -> (r: Message)
        ensures
            r == *self,
    {
        match self {
            Message::UserJoined(username) => Message::UserJoined(username.clone()),
            Message::UserLeft(username) => Message::UserLeft(username.clone()),
            Message::SystemMsg(msg) => Message::SystemMsg(msg.clone()),
            Message::Chat { username, msg } => Message::Chat {
                username: username.clone(),
                msg: msg.clone(),
            },
        }
    }
}

} // verus!
