use rawdaw_app::variants::section_variant_ids;
use rawdaw_app::variants::variant_picker_choices;
use rawdaw_app::variants::variant_tabs;

#[test]
fn variant_tabs_mark_the_default() {
    let vs = vec!["a".to_string(), "b".to_string()];
    let tabs = variant_tabs(&vs, "b");
    assert_eq!(tabs.len(), 2);
    assert_eq!(tabs[0].variant_label, "a");
    assert!(!tabs[0].is_default);
    assert!(tabs[1].is_default);
}

#[test]
fn section_variant_ids_lead_with_default() {
    let ids = section_variant_ids("base", &["chorus".to_string(), "outro".to_string()]);
    assert_eq!(ids, vec!["base".to_string(), "chorus".to_string(), "outro".to_string()]);
    assert_eq!(section_variant_ids("base", &[]), vec!["base".to_string()]);
}

#[test]
fn variant_picker_marks_defaults() {
    let vs = vec!["loud".to_string(), "soft".to_string()];
    let opts = variant_picker_choices("base", "base", &vs, "soft");
    assert_eq!(opts.len(), 3);
    assert_eq!(opts[0].value, "base");
    assert_eq!(opts[0].label, "base (default)");
    assert_eq!(opts[1].label, "loud");
    assert_eq!(opts[2].label, "soft (default)");
    let opts = variant_picker_choices("base", "loud", &vs, "loud");
    assert_eq!(opts[0].label, "base");
    assert_eq!(opts[1].label, "loud (default)");
}
