use std::collections::BTreeMap;

use octos_one::album::album_step;
use octos_one::chat::{ChatData, ChatMessage, ChatRole};
use octos_one::deck::{
    copy_messages, dev_round_result, AmaRoute, AppDeck, AppRecord, Cancelled, ComposeStep, EventOwner, RepairKind,
    TurnEvent, TurnSlots, L0_REPAIR_BUDGET,
};
use octos_one::keyed::KeyedMap;
use octos_one::tokens::CardState;

fn msg(role: ChatRole, text: &str) -> ChatMessage {
    ChatMessage { role, text: text.to_string() }
}

fn chat(texts: &[&str]) -> ChatData {
    ChatData {
        messages: texts.iter().map(|t| msg(ChatRole::User, t)).collect(),
        streaming_text: String::new(),
        authoritative_text: String::new(),
        thinking_text: String::new(),
        is_streaming: false,
        a2app_state: BTreeMap::new(),
        saved_stream_cards: Vec::new(),
    }
}

fn texts(data: &ChatData) -> Vec<String> {
    data.messages.iter().map(|m| m.text.clone()).collect()
}

fn deck() -> AppDeck {
    AppDeck::domain_deck([10, 11, 12, 13, 14, 15])
}

#[test]
fn a_fresh_chat_opens_one_app_per_domain() {
    let d = deck();
    assert_eq!(d.apps.len(), 6);
    assert_eq!(d.foreground, 0);
    let titles: Vec<&str> = d.apps.iter().map(|a| a.title.as_str()).collect();
    assert_eq!(titles, vec!["Weather", "Stock", "News", "Web", "YouTube", "Nav"]);
    assert_eq!(d.apps[5].domain.as_deref(), Some("nav"));
    assert_eq!(d.apps[3].session_id, 13);
    assert_eq!(d.app_for_domain("nav"), Some(5));
    assert_eq!(d.app_for_domain("weather"), Some(0));
    assert_eq!(d.app_for_domain("none"), None);
    assert_eq!(d.fg_session(), Some(10));
}

#[test]
fn a_new_record_is_empty() {
    let r = AppRecord::new(7, "Scratch".to_string());
    assert_eq!(r.session_id, 7);
    assert_eq!(r.title, "Scratch");
    assert!(r.domain.is_none() && r.current_prompt.is_none() && r.last_request.is_none());
    assert!(!r.has_updates && !r.repair_attempted);
    assert_eq!(r.l0_repair_attempts, 0);
    assert!(r.saved_messages.is_empty() && r.saved_a2app.is_empty());
    let w = AppRecord::with_domain(8, "Weather".to_string(), "weather");
    assert_eq!(w.domain.as_deref(), Some("weather"));
}

#[test]
fn the_prompt_in_flight_is_found_and_taken() {
    let mut d = deck();
    d.start_turn(2, 99);
    assert_eq!(d.app_of_prompt(99), Some(2));
    assert_eq!(d.app_of_prompt(98), None);
    d.set_fg_prompt(Some(5));
    assert_eq!(d.apps[0].current_prompt, Some(5));
    assert_eq!(d.fg_prompt_take(), Some(5));
    assert_eq!(d.apps[0].current_prompt, None);
    assert_eq!(d.fg_prompt_take(), None);
}

#[test]
fn a_new_turn_gets_fresh_repair_budgets() {
    let mut d = deck();
    d.apps[1].repair_attempted = true;
    d.apps[1].l0_repair_attempts = 2;
    d.start_turn(1, 42);
    assert_eq!(d.apps[1].current_prompt, Some(42));
    assert!(!d.apps[1].repair_attempted);
    assert_eq!(d.apps[1].l0_repair_attempts, 0);
}

#[test]
fn switching_away_and_back_restores_the_conversation() {
    let mut d = deck();
    let mut data = chat(&["weather in SF", "and tomorrow?"]);
    let mut st: CardState = KeyedMap::new();
    st.insert("count".to_string(), "3".to_string());
    data.a2app_state.insert(1, st);
    data.streaming_text = "partial".to_string();
    d.switch_to_app(2, &mut data);
    assert_eq!(d.foreground, 2);
    assert!(data.messages.is_empty());
    assert!(data.a2app_state.is_empty());
    assert!(data.streaming_text.is_empty());
    assert_eq!(d.apps[0].saved_messages.len(), 2);
    data.messages.push(msg(ChatRole::User, "headlines"));
    d.switch_to_app(0, &mut data);
    assert_eq!(d.foreground, 0);
    assert_eq!(texts(&data), vec!["weather in SF", "and tomorrow?"]);
    assert_eq!(data.a2app_state.len(), 1);
    assert_eq!(data.a2app_state[&1].get("count").map(|s| s.as_str()), Some("3"));
    assert_eq!(d.apps[2].saved_messages.len(), 1);
    d.switch_to_app(2, &mut data);
    assert_eq!(texts(&data), vec!["headlines"]);
}

#[test]
fn switching_clears_the_badge_and_ignores_a_missing_app() {
    let mut d = deck();
    let mut data = chat(&["hi"]);
    d.apps[3].has_updates = true;
    d.apps[0].has_updates = true;
    d.switch_to_app(0, &mut data);
    assert!(!d.apps[0].has_updates);
    assert_eq!(texts(&data), vec!["hi"]);
    d.switch_to_app(9, &mut data);
    assert_eq!(d.foreground, 0);
    d.switch_to_app(3, &mut data);
    assert!(!d.apps[3].has_updates);
}

#[test]
fn a_new_app_is_numbered_and_starts_blank() {
    let mut d = deck();
    let mut data = chat(&["weather in SF"]);
    data.saved_stream_cards.push("runsplash:sf".to_string());
    d.open_new_app(77, &mut data);
    assert_eq!(d.apps.len(), 7);
    assert_eq!(d.foreground, 6);
    assert_eq!(d.apps[6].title, "App 7");
    assert_eq!(d.apps[6].session_id, 77);
    assert!(data.messages.is_empty());
    assert_eq!(data.saved_stream_cards, vec!["runsplash:sf".to_string()]);
    assert_eq!(d.apps[0].saved_messages.len(), 1);
}

#[test]
fn focusing_a_session_reuses_or_opens_its_app() {
    let mut d = deck();
    d.apps[4].has_updates = true;
    d.focus_session(14, "ignored".to_string());
    assert_eq!(d.foreground, 4);
    assert!(!d.apps[4].has_updates);
    d.focus_session(50, "History".to_string());
    assert_eq!(d.apps.len(), 7);
    assert_eq!(d.foreground, 6);
    assert_eq!(d.apps[6].title, "History");
}

#[test]
fn a_background_apps_events_only_badge_it() {
    let mut d = deck();
    let mut slots = TurnSlots::new();
    d.start_turn(3, 300);
    d.set_fg_prompt(Some(100));
    assert_eq!(d.route_event(&mut slots, TurnEvent::TextAuthoritative, 300, ""), EventOwner::Background(3));
    assert!(!d.apps[3].has_updates);
    assert_eq!(d.route_event(&mut slots, TurnEvent::TextDelta, 300, ""), EventOwner::Background(3));
    assert!(d.apps[3].has_updates);
    assert_eq!(d.apps[3].current_prompt, Some(300));
    assert_eq!(d.route_event(&mut slots, TurnEvent::TurnComplete, 300, ""), EventOwner::Background(3));
    assert_eq!(d.apps[3].current_prompt, None);
    assert_eq!(d.route_event(&mut slots, TurnEvent::TextDelta, 100, ""), EventOwner::Foreground);
    assert_eq!(d.route_event(&mut slots, TurnEvent::TextDelta, 555, ""), EventOwner::Foreground);
}

#[test]
fn router_harness_and_cancelled_turns_never_reach_the_surface() {
    let mut d = deck();
    let mut slots = TurnSlots::new();
    slots.start_routing(7, "weather in SF".to_string());
    slots.dev_prompt = Some(8);
    slots.cancelled_ama = Some(6);
    assert_eq!(d.route_event(&mut slots, TurnEvent::TextDelta, 7, "weather "), EventOwner::Router);
    assert_eq!(d.route_event(&mut slots, TurnEvent::TextDelta, 7, "\u{2014} sunny"), EventOwner::Router);
    assert_eq!(slots.ama_text, "weather \u{2014} sunny");
    assert_eq!(d.route_event(&mut slots, TurnEvent::ThinkingDelta, 7, ""), EventOwner::Router);
    assert_eq!(d.route_event(&mut slots, TurnEvent::TextDelta, 8, "BEGIN_CARD View{} END_CARD DONE"), EventOwner::Dev);
    assert_eq!(d.route_event(&mut slots, TurnEvent::TextDelta, 6, ""), EventOwner::Stale);
    assert_eq!(d.route_event(&mut slots, TurnEvent::TextAuthoritative, 6, ""), EventOwner::Stale);
    // Thinking and errors check only the router's turn.
    assert_eq!(d.route_event(&mut slots, TurnEvent::ThinkingDelta, 8, ""), EventOwner::Foreground);
    assert_eq!(d.route_event(&mut slots, TurnEvent::TurnComplete, 6, ""), EventOwner::Stale);
    assert_eq!(slots.cancelled_ama, None);
    assert_eq!(d.route_event(&mut slots, TurnEvent::TurnComplete, 8, ""), EventOwner::Dev);
    assert_eq!(slots.dev_prompt, None);
    assert_eq!(slots.finish_dev_round(), ("View{}".to_string(), true));
    assert!(slots.dev_text.is_empty());
    assert_eq!(d.route_event(&mut slots, TurnEvent::PromptError, 7, ""), EventOwner::Router);
    assert_eq!(slots.ama_prompt, None);
    assert_eq!(slots.pending_intent.as_deref(), Some("weather in SF"));
}

#[test]
fn the_routers_reply_picks_route_or_compose() {
    let d = deck();
    assert_eq!(d.ama_route("news \u{2014} headlines"), AmaRoute::Route("news".to_string()));
    assert_eq!(
        d.ama_route("  compose weather-activity \u{2014} hikes by weather\n"),
        AmaRoute::Compose("weather-activity".to_string())
    );
    assert_eq!(d.ama_route("compose"), AmaRoute::Route("none".to_string()));
    assert_eq!(d.ama_route("none"), AmaRoute::Route("none".to_string()));
    assert_eq!(d.ama_route("activity \u{2014} in the tree"), AmaRoute::Compose("activity".to_string()));
}

#[test]
fn composing_activates_falls_back_or_opens_a_peer() {
    let mut d = deck();
    assert_eq!(d.compose_step("weather", false), ComposeStep::Activate);
    assert_eq!(d.compose_step("hiking", false), ComposeStep::FallBack);
    assert_eq!(d.compose_step("hiking", true), ComposeStep::CreatePeer);
    d.add_composed_app(60, "weather-activity");
    assert_eq!(d.apps.len(), 7);
    assert_eq!(d.apps[6].title, "Weather Activity");
    assert_eq!(d.app_for_domain("weather-activity"), Some(6));
    assert_eq!(d.compose_step("weather-activity", false), ComposeStep::Activate);
    assert_eq!(d.foreground, 0);
}

#[test]
fn activation_hands_the_held_request_to_its_app() {
    let mut d = deck();
    let mut slots = TurnSlots::new();
    let mut data = chat(&["how do I get to the airport"]);
    data.is_streaming = true;
    assert_eq!(d.activate_domain(&mut slots, "nav", &mut data), None);
    slots.start_routing(1, "how do I get to the airport".to_string());
    let got = d.activate_domain(&mut slots, "nav", &mut data);
    assert_eq!(got, Some((5, "how do I get to the airport".to_string())));
    assert_eq!(d.foreground, 5);
    assert_eq!(d.apps[5].last_request.as_deref(), Some("how do I get to the airport"));
    assert!(slots.pending_intent.is_none());
    assert!(data.is_streaming);
    slots.start_routing(2, "play chess".to_string());
    assert_eq!(d.activate_domain(&mut slots, "none", &mut data), None);
    assert!(!data.is_streaming);
    assert!(slots.pending_intent.is_none());
}

#[test]
fn cancel_stops_the_router_first_then_the_apps_turn() {
    let mut d = deck();
    let mut slots = TurnSlots::new();
    let mut data = chat(&["q"]);
    slots.start_routing(21, "q".to_string());
    slots.ama_text = "weath".to_string();
    data.is_streaming = true;
    assert_eq!(d.cancel_request(&mut slots, &mut data), Cancelled::Routing(21));
    assert_eq!(slots.cancelled_ama, Some(21));
    assert!(slots.ama_prompt.is_none() && slots.pending_intent.is_none() && slots.ama_text.is_empty());
    assert!(!data.is_streaming);
    d.set_fg_prompt(Some(22));
    data.streaming_text = "half a card".to_string();
    data.is_streaming = true;
    assert_eq!(d.cancel_request(&mut slots, &mut data), Cancelled::Turn(22));
    assert_eq!(texts(&data), vec!["q", "half a card"]);
    assert_eq!(data.messages[1].role, ChatRole::Assistant);
    assert!(data.streaming_text.is_empty() && !data.is_streaming);
    assert_eq!(d.cancel_request(&mut slots, &mut data), Cancelled::Nothing);
    assert_eq!(data.messages.len(), 2);
}

#[test]
fn a_failed_turn_leaves_its_error_in_the_chat() {
    let mut d = deck();
    let mut data = chat(&["q"]);
    d.set_fg_prompt(Some(3));
    data.is_streaming = true;
    data.thinking_text = "hmm".to_string();
    d.fail_turn(&mut data, "timeout");
    assert_eq!(texts(&data), vec!["q", "Error: timeout"]);
    assert_eq!(data.messages[1].role, ChatRole::Assistant);
    assert!(!data.is_streaming && data.thinking_text.is_empty());
    assert_eq!(d.apps[0].current_prompt, None);
}

#[test]
fn wiping_the_surface_keeps_the_turns_saved_cards() {
    let mut data = chat(&["a", "b"]);
    data.saved_stream_cards.push("runsplash:x".to_string());
    data.is_streaming = true;
    data.wipe_surface();
    assert!(data.messages.is_empty() && !data.is_streaming);
    assert_eq!(data.saved_stream_cards.len(), 1);
}

#[test]
fn copied_messages_keep_role_and_text() {
    let ms = vec![msg(ChatRole::User, "x"), msg(ChatRole::Assistant, "y")];
    let c = copy_messages(&ms);
    assert_eq!(c.len(), 2);
    assert_eq!(c[1].role, ChatRole::Assistant);
    assert_eq!(c[1].text, "y");
}

#[test]
fn history_fills_the_foreground_conversation_only() {
    let d = deck();
    let rows = vec![
        ("user".to_string(), "weather in SF".to_string()),
        ("tool".to_string(), "{...}".to_string()),
        ("assistant".to_string(), "Sunny".to_string()),
        ("system".to_string(), "x".to_string()),
    ];
    let mut data = chat(&["old"]);
    data.is_streaming = true;
    assert!(!d.hydrate_session(11, &rows, &mut data));
    assert_eq!(texts(&data), vec!["old"]);
    assert!(d.hydrate_session(10, &rows, &mut data));
    assert_eq!(texts(&data), vec!["weather in SF", "Sunny"]);
    assert_eq!(data.messages[0].role, ChatRole::User);
    assert_eq!(data.messages[1].role, ChatRole::Assistant);
    assert!(!data.is_streaming);
}

#[test]
fn a_resumed_session_comes_forward_blank() {
    let mut d = deck();
    let mut data = chat(&["old"]);
    d.resume_session(40, &mut data);
    assert_eq!(d.foreground, 6);
    assert_eq!(d.apps[6].title, "Session");
    assert!(data.messages.is_empty());
    d.resume_session(12, &mut data);
    assert_eq!(d.foreground, 2);
    assert_eq!(d.apps.len(), 7);
}

#[test]
fn cycling_goes_round_the_deck() {
    let mut d = deck();
    assert_eq!(d.next_app(), Some(1));
    d.foreground = 5;
    assert_eq!(d.next_app(), Some(0));
    let single = AppDeck { apps: vec![AppRecord::new(1, "Only".to_string())], foreground: 0 };
    assert_eq!(single.next_app(), None);
}

#[test]
fn a_finished_turn_keeps_the_stored_copy_and_ends() {
    let mut d = deck();
    let mut data = chat(&["q"]);
    data.streaming_text = "card with a lost del".to_string();
    data.authoritative_text = "card with a lost delta".to_string();
    data.thinking_text = "...".to_string();
    data.is_streaming = true;
    d.set_fg_prompt(Some(4));
    let text = data.take_turn_text();
    assert_eq!(text, "card with a lost delta");
    assert!(data.streaming_text.is_empty() && data.authoritative_text.is_empty() && data.thinking_text.is_empty());
    d.end_turn(&mut data, Some(text));
    assert_eq!(texts(&data), vec!["q", "card with a lost delta"]);
    assert!(!data.is_streaming);
    assert_eq!(d.apps[0].current_prompt, None);
    data.streaming_text = "only streamed".to_string();
    assert_eq!(data.take_turn_text(), "only streamed");
    d.end_turn(&mut data, None);
    assert_eq!(data.messages.len(), 2);
}

#[test]
fn repair_turns_draw_down_their_own_budget() {
    let mut d = deck();
    let mut data = chat(&["q"]);
    assert!(d.may_repair(0, RepairKind::OneShot));
    assert!(d.may_repair(0, RepairKind::Refusal));
    assert!(!d.may_repair(9, RepairKind::OneShot));
    for n in 0..L0_REPAIR_BUDGET {
        assert!(d.may_repair(0, RepairKind::Refusal));
        d.start_repair(0, 100 + n as u64, RepairKind::Refusal, &mut data);
    }
    assert!(!d.may_repair(0, RepairKind::Refusal));
    assert!(d.may_repair(0, RepairKind::OneShot));
    assert_eq!(d.apps[0].current_prompt, Some(102));
    assert!(data.is_streaming);
    d.start_repair(0, 200, RepairKind::OneShot, &mut data);
    assert!(!d.may_repair(0, RepairKind::OneShot));
    assert_eq!(d.apps[0].l0_repair_attempts, L0_REPAIR_BUDGET);
    d.start_turn(0, 300);
    assert!(d.may_repair(0, RepairKind::OneShot) && d.may_repair(0, RepairKind::Refusal));
}

#[test]
fn the_album_steps_within_its_images() {
    assert_eq!(album_step(2, 1, 5), 3);
    assert_eq!(album_step(4, 1, 5), 4);
    assert_eq!(album_step(0, -1, 5), 0);
    assert_eq!(album_step(3, -10, 5), 0);
    assert_eq!(album_step(1, 7, 5), 4);
    assert_eq!(album_step(0, 1, 0), 0);
}

#[test]
fn a_harness_round_reports_its_card_and_whether_it_is_done() {
    let (card, done) = dev_round_result("notes\nBEGIN_CARD\n View{} \nEND_CARD\nmore DONE");
    assert_eq!(card, "View{}");
    assert!(done);
    let (card, done) = dev_round_result("no markers here");
    assert_eq!(card, "");
    assert!(!done);
    let (card, _) = dev_round_result("BEGIN_CARD a BEGIN_CARD b END_CARD");
    assert_eq!(card, "a");
    let (card, _) = dev_round_result("BEGIN_CARD unterminated");
    assert_eq!(card, "unterminated");
}

#[test]
fn the_album_counts_in_i32_as_the_viewer_does() {
    let len = (1usize << 32) + 5;
    assert_eq!(album_step(1, 10, len), 4);
    assert_eq!(album_step(3, -1, len), 2);
}

#[test]
fn a_finished_turn_asks_for_the_security_then_lint_then_l0_repair() {
    let mut d = deck();
    d.apps[0].last_request = Some("weather in osaka".to_string());
    let bad = "```runsplash\nnet.http_request(x)\n```";
    let why = vec!["line 1: bad".to_string()];
    let (p, k) = d.choose_repair(Some(0), bad, true, Some("LINT".to_string()), &why).unwrap();
    assert!(p.starts_with("SECURITY: your card was rejected"), "{p}");
    assert_eq!(k, RepairKind::OneShot);
    let ok = "```runsplash\nView{}\n```";
    assert_eq!(
        d.choose_repair(Some(0), ok, true, Some("LINT".to_string()), &why),
        Some(("LINT".to_string(), RepairKind::OneShot))
    );
    let (p, k) = d.choose_repair(Some(0), ok, true, None, &why).unwrap();
    assert_eq!(k, RepairKind::Refusal);
    assert!(p.ends_with("it named: \"weather in osaka\""), "{p}");
    d.apps[0].repair_attempted = true;
    assert_eq!(d.choose_repair(Some(0), bad, true, Some("LINT".to_string()), &why).unwrap().1, RepairKind::Refusal);
    d.apps[0].l0_repair_attempts = L0_REPAIR_BUDGET;
    assert_eq!(d.choose_repair(Some(0), bad, true, None, &why), None);
    assert_eq!(d.choose_repair(None, bad, true, None, &why), None);
    assert_eq!(d.choose_repair(Some(1), ok, true, None, &Vec::new()), None);
}
