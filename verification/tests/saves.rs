use octos_one::saves::security_repair;
use octos_one::saves::l0_repair_prompt;
use octos_one::saves::{card_record, card_record_files, recent_cards};
use octos_one::levels::{level_refusal, Level};
use octos_one::saves::{artifact_file_name, stream_card_saves};

#[test]
fn a_named_card_is_saved_once_per_turn() {
    let text = "```runsplash\n// name: Weather SF\nView{}\n```";
    let body = "// name: Weather SF\nView{}";
    let mut saved: Vec<String> = Vec::new();
    let first = stream_card_saves(text, Some(body), &mut saved);
    assert_eq!(first.len(), 1);
    assert_eq!(first[0].name, "weather-sf");
    assert_eq!(first[0].substrate, "runsplash");
    assert_eq!(first[0].body, body);
    assert_eq!(saved, vec!["runsplash:weather-sf".to_string()]);
    let again = stream_card_saves(text, Some(body), &mut saved);
    assert!(again.is_empty());
    assert_eq!(saved.len(), 1);
}

#[test]
fn a_reply_with_a_forbidden_block_saves_no_splash_card() {
    let text = "```runsplash\n// name: ok\nView{}\n```\n```runsplash\nnet.http_request(x)\n```";
    let mut saved: Vec<String> = Vec::new();
    let out = stream_card_saves(text, Some("// name: ok\nView{}"), &mut saved);
    assert!(out.is_empty());
    assert!(saved.is_empty());
}

#[test]
fn an_html_card_is_saved_under_its_comment_name() {
    let text = "```runhtml\n<!-- name: todo -->\n<html></html>\n```";
    let mut saved: Vec<String> = Vec::new();
    let out = stream_card_saves(text, None, &mut saved);
    assert_eq!(out.len(), 1);
    assert_eq!(out[0].name, "todo");
    assert_eq!(out[0].substrate, "runhtml");
    assert_eq!(out[0].body, "<!-- name: todo -->\n<html></html>");
    assert_eq!(saved, vec!["runhtml:todo".to_string()]);
}

#[test]
fn nothing_is_saved_before_a_fence_appears() {
    let mut saved: Vec<String> = Vec::new();
    assert!(stream_card_saves("thinking about it", Some("// name: x\n"), &mut saved).is_empty());
    assert!(saved.is_empty());
}

#[test]
fn card_files_are_named_by_substrate() {
    assert_eq!(artifact_file_name("todo", "runhtml"), "todo.html");
    assert_eq!(artifact_file_name("weather-sf", "runsplash"), "weather-sf.splash");
}

#[test]
fn a_card_wider_than_its_app_is_refused() {
    // The probe card declares L1 (its level is what the checker reports).
    let refusal = level_refusal("weather", Level::L1, Level::L0).expect("an L0 app refuses it");
    assert!(
        refusal.contains("L1") && refusal.contains("L0") && refusal.contains("# level:"),
        "the refusal must be actionable: {refusal}"
    );
    assert!(refusal.starts_with("line 1: this card declares level L1 and `weather` is approved for"), "{refusal}");
    assert!(refusal.contains("L0 \u{2014} remove the `# level:` header"), "{refusal}");
    // An app approved for L1 accepts the same card.
    assert_eq!(level_refusal("city-picks", Level::L1, Level::L1), None);
    // An L0 card is never refused by this rule, at any app.
    for approved in [Level::L0, Level::L1, Level::L2] {
        assert_eq!(level_refusal("weather", Level::L0, approved), None);
    }
}

#[test]
fn a_forbidden_card_asks_for_one_security_repair() {
    let text = "```runsplash\nnet.http_request(u)\n```";
    let r = security_repair(text, false).expect("a forbidden card is repaired");
    assert_eq!(
        r,
        "SECURITY: your card was rejected \u{2014} card uses the low-level net API (only sys.* + http_resource are allowed). Re-emit the card using ONLY sys.* helpers and http_resource for images; remove all net.http_request usage."
    );
    assert_eq!(security_repair(text, true), None);
    assert_eq!(security_repair("```runsplash\nView{}\n```", false), None);
}

#[test]
fn an_l0_refusal_lists_its_reasons_and_restates_the_request() {
    let why = vec!["line 3: unknown field `volume`".to_string(), "line 9: missing `fields:`".to_string()];
    let head = "Your L0 card was REFUSED by the checker. Fix exactly these and re-emit the whole card in one ```runl0 block \u{2014} no prose, no other fenced blocks:\n- ";
    let p = l0_repair_prompt(&why, "weather in \"osaka\"");
    assert_eq!(
        p,
        format!(
            "{head}line 3: unknown field `volume`\n- line 9: missing `fields:`\n\nThe card must still answer THIS request, with the same places, tickers and options it named: \"weather in \\\"osaka\\\"\""
        )
    );
    let bare = l0_repair_prompt(&why[..1].to_vec(), "");
    assert_eq!(bare, format!("{head}line 3: unknown field `volume`"));
}

#[test]
fn a_saved_cards_record_names_where_it_came_from() {
    let record = card_record(
        "weather-sf",
        "runsplash",
        "View{ \u{e9} }",
        Some("weather"),
        None,
        Some("s\"1"),
        "2024-01-02T03:04:05+00:00",
    );
    let (meta, line) = card_record_files(&record).unwrap();
    let expected: serde_json::Value = serde_json::from_str(
        r#"{"name":"weather-sf","substrate":"runsplash","domain":"weather","session_id":"s\"1","prompt":null,"bytes":10,"saved_at":"2024-01-02T03:04:05+00:00"}"#,
    )
    .unwrap();
    assert_eq!(serde_json::from_slice::<serde_json::Value>(&meta).unwrap(), expected);
    assert_eq!(*line.last().unwrap(), b'\n');
    assert_eq!(line.iter().filter(|b| **b == b'\n').count(), 1);
    assert_eq!(serde_json::from_slice::<serde_json::Value>(&line).unwrap(), expected);
}

#[test]
fn record_values_are_json_string_literals() {
    let record = card_record("a\"b\u{1}\n\u{e9}", "runsplash", "", None, None, None, "t");
    match &record.entries[0].1 {
        octos_one::json::JsonEntry::Other(t) => assert_eq!(t, "\"a\\\"b\\u0001\\n\u{e9}\""),
        _ => panic!("the name is a string"),
    }
    match &record.entries[2].1 {
        octos_one::json::JsonEntry::Other(t) => assert_eq!(t, "null"),
        _ => panic!("an unknown domain is null"),
    }
}

#[test]
fn saved_cards_come_back_newest_first_and_capped() {
    let s = |t: i128, n: &str| (t, n.to_string(), format!("// {n}"));
    let entries = vec![s(5, "a"), s(9, "b"), s(5, "c"), s(-3, "old"), s(7, ""), s(9, "d")];
    let names = |r: Vec<(String, String)>| r.into_iter().map(|(n, _)| n).collect::<Vec<_>>();
    assert_eq!(names(recent_cards(&entries, 10)), vec!["b", "d", "a", "c", "old"]);
    assert_eq!(names(recent_cards(&entries, 2)), vec!["b", "d"]);
    assert_eq!(recent_cards(&entries, 1), vec![("b".to_string(), "// b".to_string())]);
    assert!(recent_cards(&entries, 0).is_empty());
}
