use octos_one::levels::Level;
use octos_one::prompts::{app_splash_router_for, dsl_gen_prompt, l0_prompt, splash_gen_prompt, memory_router_prompt, plan_gen_prompt, web_router_prompt, APP_SPLASH_ROUTER};
use octos_one::prompts::{app_splash_prompt, SPLASH_PROMPT_HEAD};
use octos_one::routing::{ama_message, AMA_SYSTEM_PROMPT};
use octos_one::keyed::KeyedMap;
use octos_one::lines::{extract_card_name, strip_card_name_line, strip_line_comments};
use octos_one::prompts::{app_splash_followup, detect_theme, theme_word};
use octos_one::weather::{glass_detail_card, wx_cond_meta, GLASS_DETAIL_TEMPLATE};
use octos_one::youtube::{live_video_id, patch_youtube_live_ids, youtube_reference_card, LiveIds};

#[test]
fn condition_codes_map_to_their_look() {
    assert_eq!(wx_cond_meta(" 3 "), ("Rain", "213645", "3.0", "rain wet reflective streets"));
    assert_eq!(wx_cond_meta("0"), ("Clear Sky", "0f3e73", "0.0", "clear blue sky bright sunny"));
    assert_eq!(wx_cond_meta("42"), ("Weather", "1a2b40", "2.0", "skyline"));
}

#[test]
fn the_glass_card_fills_every_placeholder() {
    let card = glass_detail_card("Kyoto", "35.01", "135.77", "7");
    for ph in ["__CITY__", "__LAT__", "__LON__", "__TINT__", "__ICON__", "__LABEL__", "__SCENE__"] {
        assert!(!card.contains(ph), "{ph} left in");
    }
    assert!(card.contains("sys.photo(\"Kyoto skyline fog mist haze\")"));
    assert!(card.contains("sys.weather(35.01, 135.77, \"current.temperature_2m\")"));
    assert!(card.contains("#x40454b"));
    assert!(card.contains("Label{ text: \"Fog\""));
    assert_eq!(GLASS_DETAIL_TEMPLATE.matches("__CITY__").count(), 2);
}

#[test]
fn a_theme_is_read_from_the_request_in_any_case() {
    assert_eq!(detect_theme("DARK weather tokyo"), Some("dark"));
    assert_eq!(detect_theme("Glass Weather"), Some("glass"));
    assert_eq!(detect_theme("weather in light rain"), None);
    assert_eq!(detect_theme("毛玻璃 天气"), Some("glass"));
    assert_eq!(theme_word("minimal dark"), Some("light"));
    assert_eq!(theme_word("immersive"), Some("photo"));
}

#[test]
fn the_followup_directive_leads_the_request() {
    let p = app_splash_followup("make it blue");
    assert!(p.starts_with("Respond with EXACTLY ONE ```runsplash fenced block"));
    assert!(p.contains("read `{{state.<key>}}`"));
    assert!(p.ends_with("\n\nUser request: make it blue"));
}

#[test]
fn card_names_are_slugged() {
    assert_eq!(extract_card_name("// name: Weather SF!\nView{}").as_deref(), Some("weather-sf"));
    assert_eq!(extract_card_name("  //name:  stocks_list \n").as_deref(), Some("stocks-list"));
    assert_eq!(extract_card_name("View{}\n// name: late").as_deref(), None);
    assert_eq!(extract_card_name("// name: !!!\n// name: b").as_deref(), Some("b"));
}

#[test]
fn the_name_line_is_dropped_and_comments_stripped() {
    assert_eq!(strip_card_name_line("// name: x\nView{}\nLabel{}"), "View{}\nLabel{}");
    assert_eq!(
        strip_line_comments("a // c\nb \"// kept\" // gone\nc"),
        "a \nb \"// kept\" \nc"
    );
}

fn live(pairs: &[(&str, &str)]) -> LiveIds {
    let mut m: LiveIds = KeyedMap::new();
    for (h, id) in pairs {
        m.insert(h.to_string(), id.to_string());
    }
    m
}

#[test]
fn live_ids_are_refreshed_through_the_cards_handle_map() {
    let card = "let h = octos.handles{\"Lofi Girl\": \"LofiGirl\", \"Sky\": \"SkyNews\"}\n\
                {ch:\"Lofi Girl\", id:\"oldoldold11\", live:1}\n\
                {ch:\"Sky\", id:\"keepkeep123\", live:0}\n\
                {ch:\"Sky\", id:\"stale000000\", live:1}";
    let cache = live(&[("LofiGirl", "NEWNEWNEW11"), ("SkyNews", "SKYSKYSKY22")]);
    let out = patch_youtube_live_ids(card, &cache);
    assert_eq!(
        out,
        "let h = octos.handles{\"Lofi Girl\": \"LofiGirl\", \"Sky\": \"SkyNews\"}\n\
         {ch:\"Lofi Girl\", id:\"NEWNEWNEW11\", live:1}\n\
         {ch:\"Sky\", id:\"keepkeep123\", live:0}\n\
         {ch:\"Sky\", id:\"SKYSKYSKY22\", live:1}"
    );
    assert_eq!(patch_youtube_live_ids(&out, &cache), out);
    assert_eq!(patch_youtube_live_ids(card, &live(&[])), card);
}

#[test]
fn the_reference_card_opens_on_live_streams() {
    let tpl = "a VAlMDl00mYY b YDvsBbKfLPA c __GOOGLE_CLIENT_ID__/__GOOGLE_CLIENT_SECRET__";
    let cache = live(&[("LofiGirl", "abcdefghijk"), ("SkyNews", "short")]);
    assert_eq!(
        youtube_reference_card(tpl, &cache, "cid", ""),
        "a abcdefghijk b YDvsBbKfLPA c cid/"
    );
}

#[test]
fn the_live_id_is_read_off_the_channel_page() {
    assert_eq!(
        live_video_id("xx\"videoId\":\"jfKfPfyJRdk\",\"videoId\":\"other\"").as_deref(),
        Some("jfKfPfyJRdk")
    );
    assert_eq!(live_video_id("\"videoId\":\"short\"").as_deref(), None);
    assert_eq!(live_video_id("\"videoId\":\"bad id!!!xyz\"").as_deref(), None);
    assert_eq!(live_video_id("nothing"), None);
}

#[test]
fn the_splash_prompt_carries_the_manual_and_the_request() {
    let p = app_splash_prompt("a counter", "MANUAL");
    assert!(p.starts_with("You are a UI-generation agent. Respond with EXACTLY ONE ```runsplash"));
    assert!(p.ends_with("(except the overrides above):\n\nMANUAL\n\nUser request: a counter"), "{}", &p[p.len() - 120..]);
    assert!(SPLASH_PROMPT_HEAD.contains("Button{ text: \"+1\" on_click: || agent.notify(\"inc\", {key: \"count\"}) }"));
}

#[test]
fn the_router_is_asked_for_one_decision_line() {
    let m = ama_message("directions to SFO");
    assert!(m.starts_with("You are the AMA (Activity Management Agent)"));
    assert!(m.ends_with("\n\nUser message: directions to SFO\n\nYour one-line routing decision:"));
    assert!(AMA_SYSTEM_PROMPT.contains("`nav \u{2014} directions; from=Saratoga High School; to=NVIDIA Santa Clara`"));
}

#[test]
fn a_domain_without_an_l0_spec_still_gets_the_splash_path() {
    let docs = "\n----- apps/web/app.md -----\nmandatory: one runhtml block\n";
    // `web` writes no plans and has no L0 spec.
    let p = splash_gen_prompt("web", "make me a todo app", docs, false, None, "Splash manual text");
    assert!(p.contains("SPLASH SYNTAX MANUAL"), "inlines the syntax manual");
    assert!(p.contains("```runsplash"), "demands one runsplash block");
    assert!(p.contains("Card {"), "still names the forbidden pseudo-DSL");
    assert!(!p.contains("```runl0"), "and does not ask for an L0 card");
}

fn l0_for(domain: &str, intent: &str, level: Level) -> String {
    l0_prompt(domain, intent, level, None, "FRAMEWORK", "LANGUAGE", "CATALOG", "SPEC", "EXEMPLAR")
}

#[test]
fn the_prompt_states_the_rule_for_the_apps_own_level() {
    let l0 = l0_for("weather", "weather in kyoto", Level::L0);
    assert!(l0.contains("Write an L0 CARD"), "an L0 app is told L0");
    assert!(l0.contains("There is no arithmetic"), "and gets L0's rule");
    let l1 = l0_for("city-picks", "compare my cities", Level::L1);
    assert!(l1.contains("Write an L1 CARD"), "an L1 app is told L1");
    assert!(!l1.contains("There is no arithmetic"), "and is NOT told L0's rule:\n{l1}");
    assert!(l1.contains("must READ something"), "it gets L1's rule instead");
}

// ---------------------------------------------------------------------------

#[test]
fn an_l0_prompt_inlines_its_references_and_names_the_look() {
    let p = l0_prompt("weather", "dark weather", Level::L2, Some("dark"), "F", "L", "C", "S", "E");
    assert!(p.starts_with("You ARE the weather app agent."));
    assert!(p.contains("Write an L0 CARD"), "an app above L1 is still told L0");
    assert!(p.contains("The request asks for the **dark** look. Declare `theme dark`"));
    assert!(p.ends_with(
        "===== FRAMEWORK =====\nF\n===== LANGUAGE =====\nL\n===== CATALOG =====\nC\n===== REQUIREMENTS: weather =====\nS\n===== A CARD THAT MEETS THEM =====\nE\n===== END REFERENCE =====\n\nUser request: dark weather"
    ));
    assert!(!l0_for("weather", "x", Level::L0).contains("look. Declare"));
}

#[test]
fn the_routed_app_gets_the_prompt_of_its_kind() {
    let web = app_splash_router_for("web", "todo", "docs", true, None, "M");
    assert_eq!(web, web_router_prompt("todo"));
    assert!(web.contains("```runhtml") && web.ends_with("User request: todo"));
    let bare = app_splash_router_for("stock", "TSLA", "", false, None, "M");
    assert_eq!(bare, memory_router_prompt("stock", "TSLA"));
    assert!(bare.starts_with(APP_SPLASH_ROUTER));
    assert!(bare.contains("generate a stock card"));
    let plan = app_splash_router_for("news", "headlines", "D", true, Some("L0".to_string()), "M");
    assert_eq!(plan, plan_gen_prompt("news", "headlines", "D"));
    assert!(plan.contains("```runplan"));
    let l0 = app_splash_router_for("activity", "parks", "D", false, Some("THE L0 PROMPT".to_string()), "M");
    assert_eq!(l0, "THE L0 PROMPT");
    let dsl = app_splash_router_for("activity", "parks", "D", false, None, "M");
    assert_eq!(dsl, dsl_gen_prompt("activity", "parks", "D", "M"));
}
