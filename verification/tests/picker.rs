use rawdaw_app::arrangement::SectionInfo;
use rawdaw_app::arrangement::SectionLengths;
use rawdaw_app::picker::section_options;
use rawdaw_app::picker::text_le_exec;

fn section(id: u64, name: &str) -> SectionInfo {
    SectionInfo {
        id,
        name: name.to_string(),
        default_variant: format!("v{id}"),
        lengths: SectionLengths { base_bars: 4, variant_bars: vec![] },
    }
}

#[test]
fn picker_orders_by_name_stably() {
    let sections = vec![
        section(3, "Verse"),
        section(1, "Chorus"),
        section(7, "Bridge"),
        section(2, "Chorus"),
        section(9, "verse"),
        section(4, "Ärger"),
    ];
    let opts = section_options(&sections);
    let labels: Vec<&str> = opts.iter().map(|o| o.label.as_str()).collect();
    assert_eq!(labels, vec!["Bridge", "Chorus", "Chorus", "Verse", "verse", "Ärger"]);
    let ids: Vec<u64> = opts.iter().map(|o| o.section_id_u64).collect();
    assert_eq!(ids, vec![7, 1, 2, 3, 9, 4]);
    assert_eq!(opts[0].key, "7");
    assert_eq!(opts[0].default_variant, "v7");
    // Same order as `str`'s own ordering with a stable sort.
    let mut expected = sections.clone();
    expected.sort_by(|a, b| a.name.cmp(&b.name));
    let expected_ids: Vec<u64> = expected.iter().map(|s| s.id).collect();
    assert_eq!(ids, expected_ids);
}

#[test]
fn text_order_matches_str() {
    for (a, b) in [("", ""), ("a", ""), ("", "a"), ("ab", "abc"), ("b", "abc"), ("Z", "a"), ("é", "z")] {
        assert_eq!(text_le_exec(a, b), a <= b, "{a} vs {b}");
    }
}
