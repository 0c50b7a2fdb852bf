use rawdaw_app::arrangement::ArrangementStep;
use rawdaw_app::inspector::bar_range_label;
use rawdaw_app::inspector::inspector_view;
use rawdaw_app::inspector::instance_count;
use rawdaw_app::inspector::instances_label;
use rawdaw_app::inspector::variant_chip;
use rawdaw_app::inspector::first_chord_loop;
use rawdaw_app::inspector::NamedLoop;
use rawdaw_app::time::MusicalTime;
use rawdaw_app::inspector::pane_style;
use rawdaw_app::inspector::InspectorView;
use rawdaw_app::inspector::synth_mode_active;

#[test]
fn pane_style_widens_for_synth_mode() {
    let wide = pane_style(true, "#16181c", "rgba(255,255,255,0.08)");
    let narrow = pane_style(false, "#16181c", "rgba(255,255,255,0.08)");
    assert!(wide.contains("width: 600px"), "wide: {wide}");
    assert!(wide.contains("flex: 0 0 600px"), "wide: {wide}");
    assert!(narrow.contains("width: 320px"), "narrow: {narrow}");
    assert!(narrow.contains("flex: 0 0 320px"), "narrow: {narrow}");
}

#[test]
fn pane_style_exact_text() {
    assert_eq!(
        pane_style(false, "B", "L"),
        "width: 320px; flex: 0 0 320px; background: B; border-left: 1px solid L; display: flex; flex-direction: column; min-height: 0;"
    );
}

#[test]
fn synth_mode_needs_no_block_and_a_track_or_fx_slot() {
    assert!(synth_mode_active(None, true, false));
    assert!(synth_mode_active(None, false, true));
    assert!(!synth_mode_active(None, false, false));
    assert!(!synth_mode_active(Some(0), true, true));
}

#[test]
fn inspector_view_precedence() {
    assert_eq!(inspector_view(Some(2), Some(1), Some(0)), InspectorView::Section { idx: 2 });
    assert_eq!(inspector_view(None, Some(1), Some(0)), InspectorView::Synth { track_idx: 1 });
    assert_eq!(inspector_view(None, None, Some(0)), InspectorView::MasterFx { slot: 0 });
    assert_eq!(inspector_view(None, None, None), InspectorView::Empty);
}

#[test]
fn section_header_texts() {
    let steps = vec![
        ArrangementStep { section: 1, variant: "base".to_string(), start: MusicalTime::zero() },
        ArrangementStep { section: 2, variant: "base".to_string(), start: MusicalTime::beats(32) },
        ArrangementStep { section: 1, variant: "b".to_string(), start: MusicalTime::beats(48) },
    ];
    assert_eq!(instance_count(&steps, 1), 2);
    assert_eq!(instance_count(&steps, 3), 0);
    assert_eq!(instances_label(1), "1 instance in arrangement");
    assert_eq!(instances_label(2), "2 instances in arrangement");
    assert_eq!(instances_label(0), "0 instances in arrangement");
    assert_eq!(bar_range_label(8, 4), "bar 9–12");
    assert_eq!(variant_chip("b", "base"), Some("variant: b".to_string()));
    assert_eq!(variant_chip("base", "base"), None);
}

#[test]
fn first_chord_loop_names_the_first_base_loop() {
    let loops = vec![
        NamedLoop { id: 5, name: String::from("Verse loop") },
        NamedLoop { id: 9, name: String::from("Chorus loop") },
    ];
    assert_eq!(first_chord_loop(&[9, 5], &loops), Some((String::from("Chorus loop"), 9)));
    assert_eq!(first_chord_loop(&[4, 5], &loops), None);
    assert_eq!(first_chord_loop(&[], &loops), None);
}
