use octos_one::compose::extract_braced;
use octos_one::scan::{parse_flat_map, parse_on_map, split_top_level_commas, unquote};

#[test]
fn commas_split_only_at_the_top_level() {
    assert_eq!(
        split_top_level_commas(r#" a: "x,y", b: { c: 1, d: 2 } , e "#),
        vec![r#"a: "x,y""#.to_string(), "b: { c: 1, d: 2 }".to_string(), "e".to_string()]
    );
    assert_eq!(split_top_level_commas("  "), Vec::<String>::new());
}

#[test]
fn one_layer_of_quotes_is_stripped() {
    assert_eq!(unquote("  \"drive\" "), "drive");
    assert_eq!(unquote("\""), "\"");
    assert_eq!(unquote(" 3d "), "3d");
}

#[test]
fn flat_props_become_a_map_and_later_keys_win() {
    let m = parse_flat_map(r#"dest: "{{state.dest}}", mode: drive, : x, mode: "walk", bare"#);
    assert_eq!(m.get("dest").map(|s| s.as_str()), Some("{{state.dest}}"));
    assert_eq!(m.get("mode").map(|s| s.as_str()), Some("walk"));
    assert!(m.get("").is_none());
    assert!(m.get("bare").is_none());
}

#[test]
fn emit_handlers_need_a_key() {
    let on = parse_on_map(r#"end: { key: "nav_end", value: "1" }, pick: {key: "pickup"}, x: { value: "v" }"#);
    let end = on.get("end").expect("end handler");
    assert_eq!(end.key, "nav_end");
    assert_eq!(end.value.as_deref(), Some("1"));
    let pick = on.get("pick").expect("pick handler");
    assert_eq!(pick.key, "pickup");
    assert_eq!(pick.value, None);
    assert!(on.get("x").is_none());
}

#[test]
fn the_braced_block_after_a_label_is_extracted() {
    assert_eq!(
        extract_braced(r#" use: "nav" props: { a: "}", b: { c: 1 } } on: {}"#, "props:").as_deref(),
        Some(r#" a: "}", b: { c: 1 } "#)
    );
    assert_eq!(extract_braced(" use: \"nav\" ", "props:"), None);
    assert_eq!(extract_braced(" props: { unclosed ", "props:"), None);
}
