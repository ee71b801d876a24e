use octos_one::kernel::{
    classify_config, kernel_config_edits, kernel_config_from_bytes, kernel_config_update,
    AppuiSection, ConfigEdits, KernelConfig, MemorySection,
};

fn edits(memory: MemorySection, appui: AppuiSection) -> ConfigEdits {
    kernel_config_edits(KernelConfig::Object { memory, appui })
}

fn json(t: &str) -> serde_json::Value {
    serde_json::from_str(t).unwrap()
}

fn update(text: Option<&str>) -> Option<serde_json::Value> {
    kernel_config_update(text.map(|t| t.as_bytes()))
        .map(|b| serde_json::from_slice(&b).expect("the written file is JSON"))
}

#[test]
fn a_missing_config_gets_both_settings() {
    let e = kernel_config_edits(KernelConfig::Unreadable);
    assert_eq!(e, ConfigEdits { raise_budget: true, add_sessions_in_cwd: true });
    assert!(e.changes_anything());
    let written = update(None).unwrap();
    assert_eq!(written["memory"]["max_inject_tokens"], 40000);
    assert_eq!(written["appui"]["sessions_in_cwd"], false);
}

#[test]
fn a_config_that_is_not_an_object_is_left_alone() {
    let e = kernel_config_edits(KernelConfig::NotObject);
    assert_eq!(e, ConfigEdits { raise_budget: false, add_sessions_in_cwd: false });
    assert!(!e.changes_anything());
    assert_eq!(kernel_config_from_bytes(Some(b"[1, 2]")), KernelConfig::NotObject);
    assert_eq!(kernel_config_from_bytes(Some(b"{not json")), KernelConfig::NotObject);
    assert_eq!(classify_config(None), KernelConfig::NotObject);
    assert!(update(Some("[1, 2]")).is_none());
    assert!(update(Some("{not json")).is_none());
}

#[test]
fn an_explicit_budget_wins_and_other_keys_are_kept() {
    let written = update(Some(r#"{"memory":{"max_inject_tokens":2500},"x":1}"#)).unwrap();
    assert_eq!(
        written,
        json(r#"{"memory":{"max_inject_tokens":2500},"x":1,"appui":{"sessions_in_cwd":false}}"#)
    );
    assert_eq!(
        kernel_config_from_bytes(Some(br#"{"memory":{"max_inject_tokens":2500},"x":1}"#)),
        KernelConfig::Object { memory: MemorySection::Object(true), appui: AppuiSection::Missing }
    );
}

#[test]
fn absent_budget_or_section_is_added_but_odd_values_are_kept() {
    assert!(edits(MemorySection::Missing, AppuiSection::Object(true)).raise_budget);
    assert!(edits(MemorySection::Object(false), AppuiSection::Object(true)).raise_budget);
    assert!(!edits(MemorySection::Object(true), AppuiSection::Object(true)).raise_budget);
    assert!(!edits(MemorySection::NotObject, AppuiSection::Object(true)).raise_budget);
    let written = update(Some(r#"{"memory":{"other":"k"},"appui":5}"#)).unwrap();
    assert_eq!(
        written,
        json(r#"{"memory":{"other":"k","max_inject_tokens":40000},"appui":5}"#)
    );
}

#[test]
fn sessions_in_cwd_is_added_only_where_missing() {
    let full = MemorySection::Object(true);
    assert!(edits(full, AppuiSection::Missing).add_sessions_in_cwd);
    assert!(edits(full, AppuiSection::Object(false)).add_sessions_in_cwd);
    assert!(!edits(full, AppuiSection::Object(true)).add_sessions_in_cwd);
    assert!(!edits(full, AppuiSection::NotObject).add_sessions_in_cwd);
    let written = update(Some(r#"{"memory":{"max_inject_tokens":1.5},"appui":{"theme":"x"}}"#)).unwrap();
    assert_eq!(
        written,
        json(r#"{"memory":{"max_inject_tokens":1.5},"appui":{"theme":"x","sessions_in_cwd":false}}"#)
    );
}

#[test]
fn applying_the_edits_settles_the_config() {
    let complete = r#"{"memory":{"max_inject_tokens":40000},"appui":{"sessions_in_cwd":true}}"#;
    assert!(update(Some(complete)).is_none());
    let once = kernel_config_update(Some(b"{}")).unwrap();
    assert!(kernel_config_update(Some(&once)).is_none());
}
