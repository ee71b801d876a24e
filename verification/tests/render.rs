use octos_one::keyed::KeyedMap;
use octos_one::render::{
    card_root_height, force_fullbleed_image_fit, neutralize_bare_view, pin_fullbleed_root_height,
    rewrite_image_fit_crop, tag_notify_calls, FULLBLEED_FALLBACK_HEIGHT,
};
use octos_one::tokens::{substitute_state_keys, CardState};

#[test]
fn fullbleed_root_height_fill_root_is_pinned() {
    let card = "SolidView{ width: Fill height: Fill flow: Overlay new_batch: true\n\
             Image{ src: http_resource(sys.photo(\"tokyo\")) width: Fill height: Fill }\n\
             View{ width: Fill height: Fit flow: Down } }";
    assert!(card_root_height(card).is_none(), "Fill root has no fixed height");
    let out = pin_fullbleed_root_height(card);
    assert_eq!(
        card_root_height(&out),
        Some(FULLBLEED_FALLBACK_HEIGHT),
        "root pinned so the image fit finds root == image"
    );
    assert_eq!(out.matches("height: Fill").count(), 1);
    assert!(out.contains(&format!("height: {FULLBLEED_FALLBACK_HEIGHT} flow: Overlay")));
}

#[test]
fn fullbleed_root_height_leaves_fixed_and_fit_cards_alone() {
    let fixed = "SolidView{ width: Fill height: 1500 flow: Overlay\n\
             Image{ width: Fill height: Fill } }";
    assert_eq!(pin_fullbleed_root_height(fixed), fixed);
    let fit = "RoundedView{ width: Fill height: Fit flow: Down\n\
             Image{ width: Fill height: Fill } }";
    assert_eq!(pin_fullbleed_root_height(fit), fit);
}

#[test]
fn a_quote_in_state_breaks_out_of_the_card_string() {
    let mut st: CardState = KeyedMap::new();
    st.insert("q".to_string(), "Bei\"jing".to_string());
    let card = r#"let q = "{{state.q}}""#;
    let out = substitute_state_keys(card, &st);
    assert_eq!(out, r#"let q = "Bei"jing""#);
}

#[test]
fn a_crafted_state_value_injects_dsl() {
    let mut st: CardState = KeyedMap::new();
    st.insert("q".to_string(), r#"x" + sys.notify("pwned") + ""#.to_string());
    let out = substitute_state_keys(r#"let q = "{{state.q}}""#, &st);
    assert!(out.contains(r#"sys.notify("pwned")"#), "{out}");
}

// ---------------------------------------------------------------------------

#[test]
fn pinning_twice_is_pinning_once() {
    let card = "SolidView{ width: Fill height: Fill flow: Overlay Image{ height: Fill } }";
    let once = pin_fullbleed_root_height(card);
    assert_eq!(pin_fullbleed_root_height(&once), once);
    assert_eq!(card_root_height(&once), Some(1500));
}

#[test]
fn the_root_height_skips_small_and_oversized_values() {
    assert_eq!(card_root_height("View{ height: 200 View{ height: 900 } }"), Some(900));
    assert_eq!(card_root_height("View{ height: 99999999999 }"), None);
    assert_eq!(card_root_height("View{ height: 700 }"), Some(700));
    assert_eq!(card_root_height("View{ height: 699 }"), None);
}

#[test]
fn unset_state_reads_as_zero() {
    let st: CardState = KeyedMap::new();
    assert_eq!(substitute_state_keys("n={{state.count}}", &st), "n=0");
}

#[test]
fn a_later_write_of_a_state_key_wins() {
    let mut st: CardState = KeyedMap::new();
    st.insert("k".to_string(), "old".to_string());
    st.insert("k".to_string(), "new".to_string());
    assert_eq!(substitute_state_keys("{{state.k}}", &st), "new");
}

#[test]
fn notify_calls_are_tagged_with_the_card_id() {
    assert_eq!(
        tag_notify_calls(r#"agent.notify("inc", {}) agent.notify("set", {})"#, 12),
        r#"agent.notify("12:inc", {}) agent.notify("12:set", {})"#
    );
}

#[test]
fn a_bare_view_becomes_a_solid_view_without_background() {
    let out = neutralize_bare_view("View{ a } RoundedView{ b } (View{c})");
    assert_eq!(out, "SolidView{show_bg: false  a } RoundedView{ b } (SolidView{show_bg: false c})");
    assert_eq!(neutralize_bare_view("Label{ text: \"x\" }"), "Label{ text: \"x\" }");
}

#[test]
fn image_fit_is_forced_to_crop_to_fill() {
    assert_eq!(
        rewrite_image_fit_crop(" src: x fit: ImageFit.Smallest height: Fill ", 1200),
        " src: x fit: ImageFit.CropToFill height: 1200 "
    );
    assert_eq!(rewrite_image_fit_crop(" src: x ", 900), " fit: ImageFit.CropToFill src: x ");
}

#[test]
fn a_full_bleed_background_image_is_pinned_to_the_root_height() {
    let card = "SolidView{ width: Fill height: 1500 flow: Overlay\n    Image{ src: x fit: ImageFit.Smallest width: Fill height: Fill }\n}";
    let out = force_fullbleed_image_fit(card);
    assert!(out.contains("ImageFit.CropToFill"), "{out}");
    assert!(!out.contains("ImageFit.Smallest"), "{out}");
}
