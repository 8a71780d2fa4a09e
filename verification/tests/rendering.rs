//! Rendering and text-helper behavior on concrete values.

use chat_relay::message::Message;
use chat_relay::text::{str_eq, trim, usize_to_string};

#[test]
fn render_joined() {
    let m = Message::UserJoined(String::from("alice"));
    assert_eq!(m.to_string(), "A new user @alice Joined");
}

#[test]
fn render_left() {
    let m = Message::UserLeft(String::from("alice"));
    assert_eq!(m.to_string(), "*** User @alice Left the chat");
}

#[test]
fn render_system() {
    let m = Message::SystemMsg(String::from("maintenance at noon"));
    assert_eq!(m.to_string(), "[:: System ::] maintenance at noon");
}

#[test]
fn render_chat() {
    let m = Message::Chat {
        username: String::from("bob"),
        msg: String::from("hello"),
    };
    assert_eq!(m.to_string(), "[bob]=> hello");
}

#[test]
fn render_is_pure_function_of_fields() {
    let a = Message::Chat {
        username: String::from("bob"),
        msg: String::from("hi"),
    };
    let b = a.duplicate();
    assert_eq!(a.to_string(), b.to_string());
    assert_eq!(a.to_string(), a.to_string());
}

#[test]
fn trim_removes_surrounding_whitespace() {
    assert_eq!(trim("  alice \t\r\n"), "alice");
    assert_eq!(trim("bob"), "bob");
    assert_eq!(trim("  a b  "), "a b");
    assert_eq!(trim("   "), "");
    assert_eq!(trim(""), "");
}

#[test]
fn decimal_rendering() {
    assert_eq!(usize_to_string(0), "0");
    assert_eq!(usize_to_string(7), "7");
    assert_eq!(usize_to_string(10), "10");
    assert_eq!(usize_to_string(105), "105");
    assert_eq!(usize_to_string(98765), "98765");
}

#[test]
fn string_comparison() {
    assert!(str_eq("/quit", "/quit"));
    assert!(!str_eq("/quit", "/quit "));
    assert!(!str_eq("/quit", "/Quit"));
    assert!(!str_eq("", "a"));
    assert!(str_eq("", ""));
}
