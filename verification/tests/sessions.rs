//! Directory behavior and full session scenarios driven through the state
//! machine, as a transport loop would drive them.

use chat_relay::server::ChatServer;
use chat_relay::session::{handle_active_line, prompt_line, register_session, SessionState};

fn active_name(state: &SessionState) -> String {
    match state {
        SessionState::Active { username } => username.clone(),
        _ => panic!("expected an active session"),
    }
}

#[test]
fn prompt_is_the_exact_banner() {
    assert_eq!(prompt_line(), "\n Enter Your username \n");
}

#[test]
fn count_tracks_registrations_and_unregistrations() {
    let mut server = ChatServer::new();
    assert_eq!(server.user_count(), 0);
    server.add_user(String::from("alice"), 1);
    server.add_user(String::from("bob"), 2);
    server.add_user(String::from("carol"), 3);
    assert_eq!(server.user_count(), 3);
    server.remove_user(2);
    assert_eq!(server.user_count(), 2);
    server.remove_user(1);
    server.remove_user(3);
    assert_eq!(server.user_count(), 0);
}

#[test]
fn registration_overwrites_an_occupied_identity() {
    let mut server = ChatServer::new();
    server.add_user(String::from("alice"), 7);
    server.add_user(String::from("alicia"), 7);
    assert_eq!(server.user_count(), 1);
    assert_eq!(server.get_username(7), Some(String::from("alicia")));
}

#[test]
fn join_and_leave_events_carry_the_registered_name() {
    let mut server = ChatServer::new();
    let sub = server.bus.subscribe();
    server.add_user(String::from("alice"), 1);
    let joined = server.bus.recv(sub).expect("one join event");
    assert_eq!(joined.to_string(), "A new user @alice Joined");
    server.remove_user(1);
    let left = server.bus.recv(sub).expect("one leave event");
    assert_eq!(left.to_string(), "*** User @alice Left the chat");
    assert!(server.bus.recv(sub).is_none());
}

#[test]
fn second_unregister_publishes_nothing() {
    let mut server = ChatServer::new();
    let sub = server.bus.subscribe();
    server.add_user(String::from("alice"), 1);
    server.remove_user(1);
    server.remove_user(1);
    assert!(server.bus.recv(sub).is_some()); // Joined
    assert!(server.bus.recv(sub).is_some()); // Left, exactly once
    assert!(server.bus.recv(sub).is_none());
    assert_eq!(server.user_count(), 0);
}

#[test]
fn empty_first_line_is_rejected_without_registration() {
    let mut server = ChatServer::new();
    let watcher = server.bus.subscribe();
    let (state, replies) = register_session(&mut server, 1, Some(String::from("   ")));
    assert!(matches!(state, SessionState::Terminated));
    assert_eq!(replies, vec![String::from("\n username can't be empty! \n")]);
    assert_eq!(server.user_count(), 0);
    assert!(server.bus.recv(watcher).is_none());
}

#[test]
fn closed_stream_before_a_name_terminates_silently() {
    let mut server = ChatServer::new();
    let (state, replies) = register_session(&mut server, 1, None);
    assert!(matches!(state, SessionState::Terminated));
    assert!(replies.is_empty());
    assert_eq!(server.user_count(), 0);
}

#[test]
fn chat_lines_reach_other_subscribers() {
    let mut server = ChatServer::new();
    let (alice_state, alice_replies) =
        register_session(&mut server, 1, Some(String::from("alice\n")));
    assert_eq!(alice_replies, vec![String::from("\n:: Welcome to the chat ::\n")]);
    let _alice = active_name(&alice_state);
    let alice_sub = server.bus.subscribe();
    let (bob_state, _) = register_session(&mut server, 2, Some(String::from("  bob  ")));
    let bob = active_name(&bob_state);
    assert_eq!(bob, "bob");
    let (replies, quit) = handle_active_line(&mut server, &bob, &String::from(" hello "));
    assert!(replies.is_empty());
    assert!(!quit);
    let first = server.bus.recv(alice_sub).expect("bob's join");
    assert_eq!(first.to_string(), "A new user @bob Joined");
    let second = server.bus.recv(alice_sub).expect("bob's chat line");
    assert_eq!(second.to_string(), "[bob]=> hello");
}

#[test]
fn users_command_reports_the_live_count() {
    let mut server = ChatServer::new();
    let (alice_state, _) = register_session(&mut server, 1, Some(String::from("alice")));
    let alice = active_name(&alice_state);
    register_session(&mut server, 2, Some(String::from("bob")));
    let (replies, quit) = handle_active_line(&mut server, &alice, &String::from("/users"));
    assert!(!quit);
    assert_eq!(replies, vec![String::from("\n2 users online\n")]);
    assert!(replies[0].contains('2'));
}

#[test]
fn quit_gets_goodbye_then_leave_is_observed() {
    let mut server = ChatServer::new();
    let (alice_state, _) = register_session(&mut server, 1, Some(String::from("alice")));
    let alice = active_name(&alice_state);
    let alice_sub = server.bus.subscribe();
    let (bob_state, _) = register_session(&mut server, 2, Some(String::from("bob")));
    let bob = active_name(&bob_state);
    let (replies, quit) = handle_active_line(&mut server, &bob, &String::from("/quit"));
    assert_eq!(replies, vec![String::from("GoodBye!\n")]);
    assert!(quit);
    let _ = alice;
    // The transport loop tears the session down on quit.
    server.remove_user(2);
    assert_eq!(server.get_username(2), None);
    assert_eq!(server.user_count(), 1);
    // The remaining subscriber observes bob's join and then his leave.
    let joined = server.bus.recv(alice_sub).expect("bob's join");
    assert_eq!(joined.to_string(), "A new user @bob Joined");
    let left = server.bus.recv(alice_sub).expect("bob's leave");
    assert_eq!(left.to_string(), "*** User @bob Left the chat");
    assert!(server.bus.recv(alice_sub).is_none());
}

#[test]
fn help_and_unknown_commands() {
    let mut server = ChatServer::new();
    let (state, _) = register_session(&mut server, 1, Some(String::from("alice")));
    let alice = active_name(&state);
    let (help, quit) = handle_active_line(&mut server, &alice, &String::from("/help"));
    assert!(!quit);
    assert_eq!(
        help,
        vec![
            String::from("Commands::\n"),
            String::from("/quit - Leave the server\n"),
            String::from("/users - Get the count of users online \n"),
            String::from("/help - For Guide\n"),
        ]
    );
    let (unknown, quit) = handle_active_line(&mut server, &alice, &String::from("/nope"));
    assert!(!quit);
    assert_eq!(
        unknown,
        vec![String::from("Unknown command.\nType /help for a guide.\n")]
    );
}

#[test]
fn empty_active_lines_are_ignored() {
    let mut server = ChatServer::new();
    let (state, _) = register_session(&mut server, 1, Some(String::from("alice")));
    let alice = active_name(&state);
    let watcher = server.bus.subscribe();
    let (replies, quit) = handle_active_line(&mut server, &alice, &String::from("   \t  "));
    assert!(replies.is_empty());
    assert!(!quit);
    assert!(server.bus.recv(watcher).is_none());
}
