use octos_one::nav::{
    extract_nav_destination, nav_trip_request, parse_nav_places, read_nav_destination, read_nav_trip,
};

#[test]
fn nav_intent_destination_extraction() {
    let cases: &[(&str, Option<&str>)] = &[
        ("directions to SFO", Some("SFO")),
        ("navigate to the Ferry Building", Some("the Ferry Building")),
        ("how do I get to Blue Bottle Coffee from SOMA", Some("Blue Bottle Coffee")),
        ("route to 1 Infinite Loop please", Some("1 Infinite Loop")),
        ("take me to SFO.", Some("SFO")),
        ("show me a map of Golden Gate Bridge", Some("Golden Gate Bridge")),
        ("导航去北京南站", Some("北京南站")),
        ("去外滩怎么走", Some("外滩")),
        ("怎么去机场", Some("机场")),
        ("到上海虹桥", Some("上海虹桥")),
        ("navigate", None),
        ("weather in tokyo", None),
    ];
    for (intent, want) in cases {
        assert_eq!(
            extract_nav_destination(intent).as_deref(),
            *want,
            "extract_nav_destination({intent:?})"
        );
    }
}

#[test]
fn nav_parse_places_from_ama_decision() {
    let cases: &[(&str, Option<&str>, Option<&str>)] = &[
        (
            "nav — directions; from=Saratoga High School; to=NVIDIA Santa Clara",
            Some("Saratoga High School"),
            Some("NVIDIA Santa Clara"),
        ),
        ("nav — directions; to=SFO", None, Some("SFO")),
        ("nav — go; from=; to=Golden Gate Bridge", None, Some("Golden Gate Bridge")),
        ("nav — no places named", None, None),
        (
            "nav — x; from='Palo Alto'; to='Nvidia Santa Clara'",
            Some("Palo Alto"),
            Some("Nvidia Santa Clara"),
        ),
    ];
    for (dec, want_o, want_d) in cases {
        let (o, d) = parse_nav_places(dec);
        assert_eq!(o.as_deref(), *want_o, "origin for {dec:?}");
        assert_eq!(d.as_deref(), *want_d, "dest for {dec:?}");
    }
}

// ---------------------------------------------------------------------------

#[test]
fn trailing_courtesies_and_marks_are_cut_until_none_is_left() {
    assert_eq!(extract_nav_destination("Go To Oakland, Thanks!").as_deref(), Some("Oakland"));
    assert_eq!(extract_nav_destination("directions to  please ").as_deref(), None);
    assert_eq!(extract_nav_destination("drive to the pier thank you.").as_deref(), Some("the pier"));
}

#[test]
fn a_place_of_zero_or_in_curly_quotes_is_read_as_named() {
    let (o, d) = parse_nav_places("nav — x; from=0; to=\u{201c}Pier 39\u{201d} | extra");
    assert_eq!(o, None);
    assert_eq!(d.as_deref(), Some("Pier 39"));
}

#[test]
fn the_trip_is_stated_to_the_nav_app() {
    let with_both = nav_trip_request("take me there", "nav — go; from=Home; to=Work");
    assert_eq!(
        with_both,
        "take me there\n\nThe trip is FROM \"Home\" TO \"Work\". Put those in the card's own state as the initial origin and destination queries, so it opens on that route instead of on an empty search box."
    );
    let from_intent = nav_trip_request("directions to SFO", "nav — directions");
    assert_eq!(
        from_intent,
        "directions to SFO\n\nThe destination is \"SFO\". Put it in the card's own state as the initial destination query, so it opens on that route instead of on an empty search box. The origin is the device's position."
    );
    assert_eq!(nav_trip_request("navigate", "nav — x; from=Home"), "navigate");
}

#[test]
fn the_destination_is_cut_at_the_byte_offset_of_the_lower_cased_copy() {
    // Lower-casing keeps these widths, so the place comes out whole.
    assert_eq!(extract_nav_destination("Directions TO ÉCOLE").as_deref(), Some("ÉCOLE"));
    // `İ` lower-cases to two characters one byte wider, so the offset found in
    // the copy lands one byte further into the request.
    assert_eq!(extract_nav_destination("İ to SFO").as_deref(), Some("FO"));
    assert_eq!(read_nav_destination("İ to SFO"), Some(Some("FO".to_string())));
}

#[test]
fn a_destination_whose_offset_misses_the_request_cannot_be_read() {
    // The offset of ` to ` in the lower-cased copy lies past the request's end.
    assert_eq!(read_nav_destination("İİ x to y"), None);
    assert_eq!(read_nav_trip("İİ x to y", "nav — go"), None);
    // A decision that names the destination needs no reading of the request.
    assert_eq!(
        read_nav_trip("İİ x to y", "nav — go; to=Work"),
        Some("İİ x to y\n\nThe destination is \"Work\". Put it in the card's own state as the initial destination query, so it opens on that route instead of on an empty search box. The origin is the device's position.".to_string())
    );
    assert_eq!(read_nav_destination("navigate"), Some(None));
    assert_eq!(read_nav_trip("directions to SFO", "nav — directions"), Some(nav_trip_request("directions to SFO", "nav — directions")));
}
