use octos_one::compose::{
    builtin_card_registry, expand_card_embeds, expand_one_card, CardRegistry, MAX_CARD_EMBED_DEPTH,
};
use octos_one::keyed::KeyedMap;
use octos_one::render::substitute_card_state;
use octos_one::scan::{matching_brace, EmitHandler, EmitMap, StrMap};
use octos_one::tokens::{namespace_child_state, rewrite_child_emits, substitute_props, CardState};

/// A `nav.navigate` drive card of the shape the registry serves: it reads its
/// inputs through props, keeps a 2D/3D `view` toggle in its own state, ticks a
/// live drive, and emits `end` when the drive ends.
const NAVIGATE_CARD: &str = r#"// name: nav-navigate
View{ width: Fill height: 620 flow: Down
    let vw = "{{state.view}}"
    MapView{ width: Fill height: 540 nav_mode: "3d" dest: "{{props.dest}}" origin: "{{props.origin}}" travel: "{{props.mode}}" }
    View{ width: Fill height: Fit flow: Right spacing: 8
        Button{ text: "2D" on_click: || agent.notify("set", {key: "view", value: "2d"}) }
        Button{ text: "End" on_click: || agent.notify("emit", {event: "end"}) }
    }
    fn tick() { sys.drive_step() }
}"#;

fn registry() -> CardRegistry {
    builtin_card_registry(Some(NAVIGATE_CARD.to_string()))
}

fn expand(body: &str) -> String {
    let mut inst = 0u32;
    expand_card_embeds(body, 0, &mut inst, &registry())
}

fn assert_shippable(out: &str) {
    assert!(!out.contains("Card{"), "unexpanded Card embed:\n{out}");
    assert!(!out.contains("{{props."), "unresolved prop token:\n{out}");
    assert!(!out.contains("{{state."), "unresolved state token:\n{out}");
    assert_eq!(out.matches('{').count(), out.matches('}').count(), "unbalanced braces:\n{out}");
}

#[test]
fn matching_brace_is_string_and_double_brace_aware() {
    let s = r#"Card{ props: { dest: "{{state.drop}}", note: "a}b{c" } }"#;
    let open = s.find('{').unwrap();
    let end = matching_brace(s, open).unwrap();
    assert_eq!(s.as_bytes()[end], b'}');
    assert_eq!(&s[end..], "}");
}

#[test]
fn substitute_props_binds_and_defaults_unset_to_zero() {
    let mut p: StrMap = KeyedMap::new();
    p.insert("mode".to_string(), "drive".to_string());
    assert_eq!(substitute_props("m={{props.mode}} d={{props.dest}}", &p), "m=drive d=0");
}

#[test]
fn props_can_carry_a_parent_state_ref_through() {
    let mut p: StrMap = KeyedMap::new();
    p.insert("dest".to_string(), "{{state.drop}}".to_string());
    assert_eq!(substitute_props("x={{props.dest}}", &p), "x={{state.drop}}");
}

#[test]
fn namespace_child_state_prefixes_reads_and_writes() {
    let body = r#"let v = "{{state.view}}"  ... agent.notify("set", {key: "view", value: "2d"})"#;
    let out = namespace_child_state(body, 2);
    assert!(out.contains("{{state._c2_view}}"), "read: {out}");
    assert!(out.contains(r#"{key: "_c2_view""#), "write: {out}");
}

#[test]
fn rewrite_emit_maps_to_parent_key_with_literal_value() {
    let mut on: EmitMap = KeyedMap::new();
    on.insert(
        "end".to_string(),
        EmitHandler { key: "nav_end".to_string(), value: Some("1".to_string()) },
    );
    let out = rewrite_child_emits(r#"agent.notify("emit", {event: "end"})"#, 0, &on);
    assert_eq!(out, r#"agent.notify("set", {key: "nav_end", value: "1"})"#);
}

#[test]
fn rewrite_emit_passes_through_emitted_value_when_handler_omits_it() {
    let mut on: EmitMap = KeyedMap::new();
    on.insert("pick".to_string(), EmitHandler { key: "pickup".to_string(), value: None });
    let out = rewrite_child_emits(
        r#"agent.notify("emit", {event: "pick", value: "37.3,-121.9|Napa"})"#,
        0,
        &on,
    );
    assert!(out.contains(r#"key: "pickup""#), "{out}");
    assert!(out.contains(r#"value: "37.3,-121.9|Napa""#), "{out}");
}

#[test]
fn unknown_card_use_becomes_inert_placeholder_not_crash() {
    let out = expand(r#"Card{ use: "nav.teleporter" props: {} }"#);
    assert!(!out.contains("Card{"), "embed not consumed: {out}");
    assert!(out.contains("unknown card: nav.teleporter"), "{out}");
}

#[test]
fn word_prefixed_card_ident_is_not_an_embed() {
    let src = "ScoreCard{ width: Fill }";
    assert_eq!(expand(src), src);
}

#[test]
fn expand_navigate_embed_end_to_end() {
    let host = r#"Card{ use: "nav.navigate"
            props: { dest: "{{state.dest}}", origin: "{{state.orig}}", mode: "drive" }
            on: { end: { key: "nav_end", value: "1" } } }"#;
    let out = expand(host);
    assert!(!out.contains("Card{"), "Card{{}} not expanded");
    assert!(!out.contains("{{props."), "unresolved props: {out}");
    assert!(out.contains("MapView{"), "map missing");
    assert!(out.contains(r#"nav_mode: "3d""#), "3d map missing");
    assert!(out.contains("{{state.dest}}"), "dest parent ref missing: {out}");
    assert!(out.contains("{{state._c0_view}}"), "view not namespaced: {out}");
    assert!(!out.contains("{{state.view}}"), "view leaked un-namespaced");
    assert!(
        out.contains(r#"agent.notify("set", {key: "nav_end", value: "1"})"#),
        "end not wired: {out}"
    );
    assert!(!out.contains(r#""emit""#), "raw emit left in: {out}");
}

#[test]
fn two_embeds_get_distinct_namespaces() {
    let host = r#"Card{ use:"nav.navigate" props:{dest:"a"} on:{end:{key:"e1"}} }
                     Card{ use:"nav.navigate" props:{dest:"b"} on:{end:{key:"e2"}} }"#;
    let out = expand(host);
    assert!(out.contains("{{state._c0_view}}"), "c0 view missing");
    assert!(out.contains("{{state._c1_view}}"), "c1 view missing");
}

#[test]
fn registry_navigate_card_is_present_and_props_based() {
    let reg = registry();
    let raw = reg.get("nav.navigate").expect("nav.navigate registered");
    assert!(raw.contains("{{props.dest}}"), "card not props-based");
    assert!(raw.contains(r#"agent.notify("emit", {event: "end"})"#), "no emit");
}

#[test]
fn without_its_body_the_builtin_registry_is_empty() {
    let reg = builtin_card_registry(None);
    assert!(reg.get("nav.navigate").is_none());
    let mut inst = 0u32;
    let host = r#"Card{ use:"nav.navigate" props:{dest:"a"} }"#;
    let out = expand_card_embeds(host, 0, &mut inst, &reg);
    assert!(!out.contains("MapView"), "nothing to inline:\n{out}");
    assert!(out.contains("unknown card: nav.navigate"), "an inert placeholder instead:\n{out}");
}

#[test]
fn compose_navigate_to_x_full_pipeline() {
    let host = "// name: go\n\
            Card{ use: \"nav.navigate\" \
            props: { dest: \"{{state.dest}}\", mode: \"drive\" } \
            on: { end: { key: \"done\", value: \"1\" } } }";
    let mut st: CardState = KeyedMap::new();
    st.insert("dest".to_string(), "37.37,-121.96|NVIDIA".to_string());
    let out = substitute_card_state(host, 7, &st, &registry());
    assert_shippable(&out);
    assert!(out.contains("37.37,-121.96|NVIDIA"), "dest not wired:\n{out}");
    assert!(out.contains("MapView{"), "no map");
    assert!(out.contains("fn tick()"), "no tick");
    assert!(
        out.contains(r#"agent.notify("7:set", {key: "done", value: "1"})"#),
        "end not wired to parent:\n{out}"
    );
    assert!(out.contains("7:set"), "notify not tagged");
}

#[test]
fn compose_two_navigate_cards_resolve_state_independently() {
    let host = "Card{ use:\"nav.navigate\" props:{dest:\"{{state.a}}\"} on:{end:{key:\"x\"}} }\n\
                    Card{ use:\"nav.navigate\" props:{dest:\"{{state.b}}\"} on:{end:{key:\"y\"}} }";
    let mut st: CardState = KeyedMap::new();
    st.insert("a".to_string(), "1.0,1.0|Alpha".to_string());
    st.insert("b".to_string(), "2.0,2.0|Beta".to_string());
    st.insert("_c0_view".to_string(), "2d".to_string());
    st.insert("_c1_view".to_string(), "0".to_string());
    let out = substitute_card_state(host, 3, &st, &registry());
    assert_shippable(&out);
    assert!(out.contains("1.0,1.0|Alpha") && out.contains("2.0,2.0|Beta"), "dests");
    assert!(out.contains(r#"let vw = "2d""#), "c0 view!=2d:\n{out}");
    assert!(out.contains(r#"let vw = "0""#), "c1 view!=0");
}

// ---------------------------------------------------------------------------

#[test]
fn expansion_counts_instances_and_threads_the_counter() {
    let host = r#"Card{ use:"nav.navigate" props:{} } Card{ use:"nav.navigate" props:{} }"#;
    let mut inst = 5u32;
    let out = expand_card_embeds(host, 0, &mut inst, &registry());
    assert_eq!(inst, 7);
    assert!(out.contains("{{state._c5_view}}") && out.contains("{{state._c6_view}}"), "{out}");
}

#[test]
fn the_instance_counter_wraps_like_a_release_build() {
    let mut inst = u32::MAX;
    let out = expand_one_card(r#" use: "nav.navigate" "#, 0, &mut inst, &registry());
    assert_eq!(inst, 0);
    assert!(out.contains(&format!("{{{{state._c{}_view}}}}", u32::MAX)), "{out}");
}

#[test]
fn expansion_stops_at_the_depth_limit() {
    let host = r#"Card{ use:"nav.navigate" }"#;
    let mut inst = 0u32;
    let out = expand_card_embeds(host, MAX_CARD_EMBED_DEPTH, &mut inst, &registry());
    assert_eq!(out, host);
    assert_eq!(inst, 0);
}

#[test]
fn an_unregistered_card_keeps_the_counter() {
    let mut inst = 3u32;
    let out = expand_one_card(r#" use: "nav.nowhere" "#, 0, &mut inst, &registry());
    assert_eq!(inst, 3);
    assert!(out.contains("unknown card: nav.nowhere"), "{out}");
}

#[test]
fn matching_brace_works_on_byte_offsets() {
    let s = "\u{e9}{ \"\u{4e2d}}\" }x";
    let open = s.find('{').unwrap();
    assert_eq!(open, 2);
    let end = matching_brace(s, open).unwrap();
    assert_eq!(&s[end..], "}x");
    assert_eq!(matching_brace(s, 1), None);
    assert_eq!(matching_brace(s, 0), None);
    assert_eq!(matching_brace(s, 99), None);
}
