use octos_one::approval::{parse_recorded_decision, ApprovalDecision};
use octos_one::routing::{app_title, parse_ama_decision};

#[test]
fn the_id_before_the_em_dash_is_the_route() {
    assert_eq!(parse_ama_decision("weather \u{2014} a bare place"), (false, "weather".to_string()));
    assert_eq!(
        parse_ama_decision("Let me think. This is about Stocks \u{2014} ticker \u{2014} more"),
        (false, "ticker".to_string())
    );
}

#[test]
fn the_id_is_the_token_before_the_last_em_dash() {
    assert_eq!(parse_ama_decision("weather \u{2014} bare place name"), (false, "weather".to_string()));
    assert_eq!(
        parse_ama_decision("compose weather-news \u{2014} combined view"),
        (true, "weather-news".to_string())
    );
    assert_eq!(parse_ama_decision("none"), (false, "none".to_string()));
    assert_eq!(
        parse_ama_decision("Let me compose a plan. stock \u{2014} a ticker"),
        (false, "stock".to_string())
    );
    assert_eq!(parse_ama_decision("weather \u{2014} rain \u{2014} maybe"), (false, "rain".to_string()));
}

#[test]
fn a_composed_id_needs_a_hyphen() {
    assert_eq!(
        parse_ama_decision("I wrote it. compose weather-news \u{2014} both"),
        (true, "weather-news".to_string())
    );
    assert_eq!(
        parse_ama_decision("news \u{2014} compose a plan first"),
        (false, "news".to_string())
    );
}

#[test]
fn a_bare_decision_is_the_first_token_of_the_last_line() {
    assert_eq!(parse_ama_decision("thinking...\n\n  none  \n\n"), (false, "none".to_string()));
    assert_eq!(parse_ama_decision("Compose"), (true, String::new()));
    assert_eq!(parse_ama_decision(""), (false, String::new()));
}

#[test]
fn ids_are_cleaned() {
    assert_eq!(parse_ama_decision("--Weather_News!-- \u{2014} r"), (false, "weathernews".to_string()));
    let long = format!("{} \u{2014} r", "a".repeat(50));
    assert_eq!(parse_ama_decision(&long).1, "a".repeat(40));
}

#[test]
fn a_composed_app_is_titled_from_its_id() {
    assert_eq!(app_title("weather-activity"), "Weather Activity");
    assert_eq!(app_title("-news--digest-"), "News Digest");
    assert_eq!(app_title(""), "");
}

#[test]
fn recorded_approvals_map_back_to_decisions() {
    assert_eq!(parse_recorded_decision("approve"), Some(ApprovalDecision::Approve));
    assert_eq!(parse_recorded_decision("deny"), Some(ApprovalDecision::Deny));
    assert_eq!(parse_recorded_decision("Approve"), None);
}
