use octos_one::mermaid::MermaidSvgView;

#[test]
fn a_diagram_renders_once_its_source_settles() {
    let mut v = MermaidSvgView::new();
    assert_eq!(v.set_mermaid_src("graph TD; A-->B\u{258b}"), None);
    assert_eq!(v.pending.as_deref(), Some("graph TD; A-->B"));
    assert_eq!(v.set_mermaid_src("  graph TD; A-->B \n"), Some("graph TD; A-->B".to_string()));
    assert!(v.set_svg_str("<svg/>"));
    v.doc_parsed(true);
    v.rendered("graph TD; A-->B");
    assert_eq!(v.set_mermaid_src("graph TD; A-->B"), None);
    assert_eq!(v.set_mermaid_src("graph TD; A-->C"), None);
    assert_eq!(v.set_mermaid_src("graph TD; A-->C"), Some("graph TD; A-->C".to_string()));
}

#[test]
fn a_short_or_empty_source_is_ignored() {
    let mut v = MermaidSvgView::new();
    assert_eq!(v.set_mermaid_src("graph"), None);
    assert_eq!(v.set_mermaid_src("graph"), None);
    assert!(v.pending.is_none());
    assert_eq!(v.set_mermaid_src("\u{258b}\u{258b}"), None);
}

#[test]
fn the_same_svg_is_not_parsed_twice() {
    let mut v = MermaidSvgView::new();
    assert!(v.set_svg_str("<svg>a</svg>"));
    assert!(v.set_svg_str("<svg>a</svg>"));
    v.doc_parsed(true);
    assert!(!v.set_svg_str("<svg>a</svg>"));
    assert!(v.set_svg_str("<svg>b</svg>"));
    v.doc_parsed(false);
    assert!(v.set_svg_str("<svg>b</svg>"));
}
