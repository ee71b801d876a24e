use octos_one::compose::CardRegistry;
use octos_one::fences::{
    defer_unclosed_runplan, defer_unclosed_runsplash, extract_all_runsplash_bodies,
    extract_html_card_name, extract_runhtml_body, extract_runsplash_body,
    materialize_runplan_for_display, neutralize_forbidden_cards, normalize_splash_for_scan,
    resolve_a2app_card, runsplash_body_forbidden, seed_card_message, stored_turn_text,
    streaming_view_text,
};
use octos_one::keyed::KeyedMap;
use octos_one::tokens::CardState;

#[test]
fn an_unclosed_runplan_is_hidden_while_streaming() {
    let partial = "before\n```runplan\n{\"plan\":\"news\"";
    let display = defer_unclosed_runplan(partial);
    assert_eq!(display, "before\n\u{1F6E0} Building app UI\u{2026}");
    assert!(!display.contains("\"plan\""), "partial plan JSON leaked into UI");
}

// ---------------------------------------------------------------------------

#[test]
fn a_closed_block_is_not_deferred() {
    let done = "intro\n```runsplash\nView{}\n```\nafter";
    assert_eq!(defer_unclosed_runsplash(done), done);
    let streaming = "intro\n```runsplash\nView{ wid";
    assert_eq!(defer_unclosed_runsplash(streaming), "intro\n\u{1F6E0} Building app UI\u{2026}");
}

#[test]
fn the_first_runsplash_body_is_trimmed_at_its_end() {
    let msg = "x\n```runsplash name\nView{ a }  \n\n```\n```runsplash\nLabel{}\n```";
    assert_eq!(extract_runsplash_body(msg).as_deref(), Some("View{ a }"));
    assert_eq!(extract_runsplash_body("```runsplash\nno close").as_deref(), None);
    assert_eq!(
        extract_runhtml_body("```runhtml\n<html></html>\n```").as_deref(),
        Some("<html></html>")
    );
}

#[test]
fn every_runsplash_body_is_extracted() {
    let msg = "```runsplash\nA{}\n```\ntext\n```runsplash\nB{}\n```\n```runsplash\nC{";
    assert_eq!(extract_all_runsplash_bodies(msg), vec!["A{}".to_string(), "B{}".to_string()]);
}

#[test]
fn comments_and_whitespace_are_dropped_for_the_scan() {
    assert_eq!(normalize_splash_for_scan("net . http_request // x\n(1)"), "net.http_request(1)");
    assert_eq!(normalize_splash_for_scan("net./*x*/http_request"), "net.http_request");
    assert_eq!(normalize_splash_for_scan("a /* never closed"), "a");
}

#[test]
fn the_net_api_is_forbidden_on_any_receiver() {
    let reason = "card uses the low-level net API (only sys.* + http_resource are allowed)";
    assert_eq!(runsplash_body_forbidden("let n = net; n.http_request(u)"), Some(reason));
    assert_eq!(runsplash_body_forbidden("net./* hide */HTTP_Request(u)"), Some(reason));
    assert_eq!(runsplash_body_forbidden("net.HttpMethod.Post"), Some(reason));
    assert_eq!(runsplash_body_forbidden("s.socket_open()"), Some(reason));
    assert_eq!(runsplash_body_forbidden("Image{ src: http_resource(\"x\") }"), None);
}

#[test]
fn a_forbidden_block_is_replaced_by_a_notice() {
    let msg = "hi\n```runsplash\nView{}\n```\nmid\n```runsplash\nnet.http_request(x)\n```\nbye";
    let (out, blocked) = neutralize_forbidden_cards(msg);
    assert!(blocked);
    assert_eq!(
        out,
        "hi\n```runsplash\nView{}\n```\nmid\n\u{26A0} A card was blocked: card uses the low-level net API (only sys.* + http_resource are allowed).\nbye"
    );
    let (again, blocked_again) = neutralize_forbidden_cards(&out);
    assert_eq!(again, out);
    assert!(!blocked_again);
}

#[test]
fn a_safe_message_is_left_as_it_is() {
    let msg = "```runsplash\nView{}\n```";
    assert_eq!(neutralize_forbidden_cards(msg), (msg.to_string(), false));
    assert_eq!(neutralize_forbidden_cards("plain"), ("plain".to_string(), false));
}

#[test]
fn a_plan_fence_is_shown_as_its_card() {
    let msg = "look:\n```runplan\n{\"plan\":\"x\"}\n```\nend";
    assert_eq!(
        materialize_runplan_for_display(msg, "View{}").as_deref(),
        Some("look:\n```runsplash\nView{}\n```\nend")
    );
    assert_eq!(materialize_runplan_for_display("no plan here", "View{}"), None);
}

#[test]
fn html_card_names_come_from_the_comment_directive() {
    assert_eq!(
        extract_html_card_name("<!doctype html>\n<!-- name: Todo List! -->\n<html>").as_deref(),
        Some("todo-list")
    );
    assert_eq!(extract_html_card_name("<div>\n<!-- name: late -->").as_deref(), None);
}

#[test]
fn each_card_block_is_prepared_for_its_card() {
    let mut st: CardState = KeyedMap::new();
    st.insert("n".to_string(), "5".to_string());
    let reg: CardRegistry = KeyedMap::new();
    let msg = "intro\n```runsplash\n// name: counter\nLabel{ text: \"{{state.n}}\" }\n```\noutro";
    let out = resolve_a2app_card(msg, 4, &st, &reg);
    assert_eq!(out, "intro\n```runsplash\nLabel{ text: \"5\" }\n```\noutro");
    assert_eq!(resolve_a2app_card("just prose", 4, &st, &reg), "just prose");
}

#[test]
fn a_seed_card_is_fenced_by_its_kind() {
    assert_eq!(seed_card_message("  View{}\n"), "```runsplash\nView{}\n```");
    assert_eq!(
        seed_card_message("<!DOCTYPE html><p>x</p>\n"),
        "```runhtml\n<!DOCTYPE html><p>x</p>\n```"
    );
    assert_eq!(seed_card_message("<!-- name: t -->\n<div/>"), "```runhtml\n<!-- name: t -->\n<div/>\n```");
    assert_eq!(seed_card_message("<html></html>"), "```runhtml\n<html></html>\n```");
}

#[test]
fn a_finished_turn_is_stored_with_its_plan_shown_and_forbidden_cards_blocked() {
    let text = "Here:\n```runplan\n{\"plan\":\"weather\"}\n```\n";
    assert_eq!(stored_turn_text(text, Some("View{}")), "Here:\n```runsplash\nView{}\n```\n");
    assert_eq!(stored_turn_text(text, None), text);
    let bad = "```runsplash\nnet.http_request(x)\n```\nbye";
    let stored = stored_turn_text(bad, None);
    assert!(!stored.contains("net.http_request"), "{stored}");
    assert!(stored.contains("A card was blocked"), "{stored}");
}

#[test]
fn the_streaming_reply_shows_an_ellipsis_then_held_back_blocks() {
    assert_eq!(streaming_view_text("", None), "\u{2026}");
    assert_eq!(
        streaming_view_text("Hi\n```runsplash\nView{", None),
        "Hi\n\u{1F6E0} Building app UI\u{2026}"
    );
    assert_eq!(
        streaming_view_text("Hi\n```runplan\n{\"pl", Some("View{}")),
        "Hi\n\u{1F6E0} Building app UI\u{2026}"
    );
    assert_eq!(
        streaming_view_text("```runplan\n{}\n```\nok", Some("View{}")),
        "```runsplash\nView{}\n```\nok"
    );
}
