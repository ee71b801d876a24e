use octos_one::chat::accepts_submit;
use octos_one::events::deeplink_payload;
use octos_one::chat::begin_turn;
use std::collections::BTreeMap;
use octos_one::chat::{last_user_prompt, turn_text, ChatData, ChatMessage, ChatRole};
use octos_one::events::{
    apply_card_event, city_event_message, notify_key, notify_target, notify_value,
};
use octos_one::keyed::KeyedMap;
use octos_one::tokens::{substitute_state_keys, CardState};

fn counter(st: &CardState, key: &str) -> String {
    substitute_state_keys(&format!("{{{{state.{key}}}}}"), st)
}

#[test]
fn a_tagged_notify_names_its_card_and_event() {
    assert_eq!(notify_target("7:INC"), (Some(7), "inc".to_string()));
    assert_eq!(notify_target("+12:Set:mood"), (Some(12), "set:mood".to_string()));
    assert_eq!(notify_target("x:inc"), (None, "inc".to_string()));
    assert_eq!(notify_target("inc"), (None, "inc".to_string()));
    assert_eq!(notify_target("-1:inc"), (None, "inc".to_string()));
}

#[test]
fn the_payload_names_the_key_and_carries_the_value() {
    assert_eq!(notify_key(r#"{"key": "mood", "value": "happy"}"#), "mood");
    assert_eq!(notify_key("{}"), "count");
    assert_eq!(notify_key("not json"), "count");
    assert_eq!(notify_key(r#"{"key": 3}"#), "count");
    assert_eq!(notify_value(r#"{"key": "mood", "value": "happy"}"#).as_deref(), Some("happy"));
    assert_eq!(notify_value(r#"{"value": 2}"#), None);
}

#[test]
fn counters_count_reset_and_set() {
    let mut st: CardState = KeyedMap::new();
    assert!(apply_card_event(&mut st, "inc", "count", None));
    assert!(apply_card_event(&mut st, "plus", "count", None));
    assert_eq!(counter(&st, "count"), "2");
    assert!(apply_card_event(&mut st, "minus", "count", None));
    assert!(apply_card_event(&mut st, "dec", "count", None));
    assert!(apply_card_event(&mut st, "sub", "count", None));
    assert_eq!(counter(&st, "count"), "-1");
    assert!(apply_card_event(&mut st, "reset", "count", None));
    assert_eq!(counter(&st, "count"), "0");
    assert!(apply_card_event(&mut st, "set", "mood", Some("happy")));
    assert_eq!(counter(&st, "mood"), "happy");
    assert!(!apply_card_event(&mut st, "set", "mood", None));
    assert!(!apply_card_event(&mut st, "city", "mood", Some("x")));
    assert_eq!(counter(&st, "mood"), "happy");
}

#[test]
fn a_non_number_counts_from_zero_and_the_counter_wraps() {
    let mut st: CardState = KeyedMap::new();
    st.insert("n".to_string(), "abc".to_string());
    apply_card_event(&mut st, "inc", "n", None);
    assert_eq!(counter(&st, "n"), "1");
    st.insert("n".to_string(), i64::MAX.to_string());
    apply_card_event(&mut st, "inc", "n", None);
    assert_eq!(counter(&st, "n"), i64::MIN.to_string());
    apply_card_event(&mut st, "dec", "n", None);
    assert_eq!(counter(&st, "n"), i64::MAX.to_string());
}

#[test]
fn reset_is_a_reset_and_not_a_set() {
    let mut st: CardState = KeyedMap::new();
    st.insert("k".to_string(), "5".to_string());
    assert!(apply_card_event(&mut st, "reset", "k", Some("9")));
    assert_eq!(counter(&st, "k"), "0");
}

#[test]
fn a_city_row_opens_its_glass_card() {
    let msg = city_event_message("city", Some("Oslo|59.9|10.7|5")).expect("four parts");
    assert!(msg.starts_with("```runsplash\nSolidView{"), "{msg}");
    assert!(msg.ends_with("\n```"), "{msg}");
    assert!(msg.contains("sys.photo(\"Oslo skyline snow winter white\")"), "{msg}");
    assert_eq!(city_event_message("city", Some("Oslo|59.9|10.7")), None);
    assert_eq!(city_event_message("inc", Some("Oslo|59.9|10.7|5")), None);
    assert_eq!(city_event_message("city", None), None);
}

#[test]
fn the_stored_copy_of_a_turn_is_preferred() {
    assert_eq!(turn_text("partial", "complete"), "complete");
    assert_eq!(turn_text("streamed", ""), "streamed");
}

#[test]
fn the_card_request_is_the_last_user_message() {
    let ms = vec![
        ChatMessage { role: ChatRole::User, text: "first".to_string() },
        ChatMessage { role: ChatRole::Assistant, text: "a".to_string() },
        ChatMessage { role: ChatRole::User, text: "second".to_string() },
        ChatMessage { role: ChatRole::Assistant, text: "b".to_string() },
    ];
    assert_eq!(last_user_prompt(&ms).as_deref(), Some("second"));
    assert_eq!(last_user_prompt(&ChatData::load_from_disk()), None);
}

#[test]
fn a_request_is_sent_only_when_idle_and_not_blank() {
    assert!(accepts_submit("weather", false));
    assert!(!accepts_submit("  \n\t", false));
    assert!(!accepts_submit("weather", true));
}

#[test]
fn a_turn_starts_with_a_clean_streaming_surface() {
    let mut data = ChatData {
        messages: vec![ChatMessage { role: ChatRole::Assistant, text: "hi".to_string() }],
        streaming_text: "old".to_string(),
        authoritative_text: "old".to_string(),
        thinking_text: "hm".to_string(),
        is_streaming: false,
        a2app_state: BTreeMap::new(),
        saved_stream_cards: vec!["runsplash:x".to_string()],
    };
    let items = begin_turn(&mut data, "weather tokyo".to_string());
    assert_eq!(items, 3);
    assert_eq!(data.messages.len(), 2);
    assert_eq!(data.messages[1].role, ChatRole::User);
    assert_eq!(data.messages[1].text, "weather tokyo");
    assert!(data.streaming_text.is_empty() && data.authoritative_text.is_empty());
    assert!(data.thinking_text.is_empty() && data.saved_stream_cards.is_empty());
    assert!(data.is_streaming);
}

#[test]
fn a_shared_link_becomes_a_json_string_payload() {
    assert_eq!(deeplink_payload("https://youtu.be/abc"), "\"https://youtu.be/abc\"");
    assert_eq!(deeplink_payload("a\"b\\c"), "\"a\\\"b\\\\c\"");
}

#[test]
fn counting_up_then_down_restores_the_counter() {
    let mut st: CardState = KeyedMap::new();
    st.insert("count".to_string(), "5".to_string());
    assert!(apply_card_event(&mut st, "inc", "count", None));
    assert_eq!(st.get("count").map(|s| s.as_str()), Some("6"));
    assert!(apply_card_event(&mut st, "dec", "count", None));
    assert_eq!(st.get("count").map(|s| s.as_str()), Some("5"));
    let mut fresh: CardState = KeyedMap::new();
    apply_card_event(&mut fresh, "minus", "n", None);
    apply_card_event(&mut fresh, "plus", "n", None);
    assert_eq!(fresh.get("n").map(|s| s.as_str()), Some("0"));
    let mut top: CardState = KeyedMap::new();
    top.insert("n".to_string(), i64::MAX.to_string());
    apply_card_event(&mut top, "inc", "n", None);
    assert_eq!(top.get("n").map(|s| s.as_str()), Some("-9223372036854775808"));
    apply_card_event(&mut top, "dec", "n", None);
    assert_eq!(top.get("n").map(|s| s.as_str()), Some("9223372036854775807"));
}

#[test]
fn a_notify_changes_only_its_own_card() {
    let mut data = ChatData {
        messages: Vec::new(),
        streaming_text: String::new(),
        authoritative_text: String::new(),
        thinking_text: String::new(),
        is_streaming: false,
        a2app_state: BTreeMap::new(),
        saved_stream_cards: Vec::new(),
    };
    let mut other: CardState = KeyedMap::new();
    other.insert("count".to_string(), "5".to_string());
    data.a2app_state.insert(1, other);

    assert!(data.apply_notify(Some(3), "inc", "count", None));
    assert!(data.apply_notify(Some(3), "plus", "count", None));
    assert_eq!(counter(&data.a2app_state[&3], "count"), "2");
    assert_eq!(counter(&data.a2app_state[&1], "count"), "5");

    // An event that changes nothing still gives the card its entry.
    assert!(!data.apply_notify(Some(8), "wave", "count", None));
    assert!(data.a2app_state.contains_key(&8));
    assert!(!data.apply_notify(Some(9), "set", "mood", None));

    // Without a card nothing happens.
    assert!(!data.apply_notify(None, "inc", "count", None));
    assert_eq!(data.a2app_state.len(), 4);

    assert!(data.apply_notify(Some(1), "reset", "count", None));
    assert_eq!(counter(&data.a2app_state[&1], "count"), "0");
    assert!(data.apply_notify(Some(1), "set", "mood", Some("calm")));
    assert_eq!(counter(&data.a2app_state[&1], "mood"), "calm");
}
