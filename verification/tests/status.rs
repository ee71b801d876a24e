use std::collections::BTreeMap;

use octos_one::chat::{ChatData, ChatMessage, ChatRole};
use octos_one::status::{
    connection_indicator, probe_warnings, status_line, surface_visibility, ConnectionState,
};

#[test]
fn the_status_line_names_the_profile() {
    assert_eq!(status_line(Some("default")), "Connected \u{b7} profile=default");
    assert_eq!(status_line(None), "Initializing...");
}

#[test]
fn the_connection_dot_follows_the_transport() {
    assert_eq!(connection_indicator(ConnectionState::Connected), ("Live", "#x4FCB6E"));
    assert_eq!(connection_indicator(ConnectionState::Reconnecting), ("Reconnecting", "#xF6BE63"));
    assert_eq!(connection_indicator(ConnectionState::Offline), ("Offline", "#xE36363"));
}

#[test]
fn the_empty_state_and_curtain_follow_the_conversation() {
    let mut data = ChatData {
        messages: Vec::new(),
        streaming_text: String::new(),
        authoritative_text: String::new(),
        thinking_text: String::new(),
        is_streaming: false,
        a2app_state: BTreeMap::new(),
        saved_stream_cards: Vec::new(),
    };
    assert_eq!(surface_visibility(&data), (true, false));
    data.is_streaming = true;
    assert_eq!(surface_visibility(&data), (false, true));
    data.is_streaming = false;
    data.messages.push(ChatMessage { role: ChatRole::User, text: "hi".to_string() });
    assert_eq!(surface_visibility(&data), (false, false));
}

#[test]
fn the_version_probe_warns_about_a_foreign_server() {
    assert_eq!(probe_warnings(Some("1.4.2"), Some("octos")), (false, false));
    assert_eq!(probe_warnings(Some("0.9"), None), (false, false));
    assert_eq!(probe_warnings(Some("2.0.0"), Some("nginx")), (true, true));
    assert_eq!(probe_warnings(None, None), (false, false));
}
