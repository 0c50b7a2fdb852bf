use rawdaw_app::arrangement::arrangement_blocks;
use rawdaw_app::arrangement::arrangement_total_bars;
use rawdaw_app::arrangement::drag_layout;
use rawdaw_app::arrangement::drag_move;
use rawdaw_app::arrangement::drag_preview;
use rawdaw_app::arrangement::source_center;
use rawdaw_app::arrangement::ArrangementStep;
use rawdaw_app::arrangement::SectionInfo;
use rawdaw_app::arrangement::effective_duration_bars;
use rawdaw_app::arrangement::musical_time_to_bars;
use rawdaw_app::arrangement::ribbon_slots;
use rawdaw_app::arrangement::target_idx_for_delta;
use rawdaw_app::arrangement::RibbonSlot;
use rawdaw_app::arrangement::block_highlight;
use rawdaw_app::arrangement::block_is_dragging;
use rawdaw_app::arrangement::block_length_text;
use rawdaw_app::arrangement::inner_bar_path;
use rawdaw_app::arrangement::ArrangementDragPreview;
use rawdaw_app::arrangement::BlockHighlight;
use rawdaw_app::arrangement::ribbon_cells;
use rawdaw_app::arrangement::ArrangementBlock;
use rawdaw_app::arrangement::RibbonCell;
use rawdaw_app::arrangement::RibbonLoop;
use rawdaw_app::arrangement::RibbonSection;
use rawdaw_app::arrangement::SectionLengths;
use rawdaw_app::time::MusicalTime;
use rawdaw_app::time::PPQ;

#[test]
fn musical_time_to_bars_floors_in_four_four() {
    assert_eq!(musical_time_to_bars(MusicalTime::zero()), 0);
    assert_eq!(musical_time_to_bars(MusicalTime::ticks(4 * PPQ - 1)), 0);
    assert_eq!(musical_time_to_bars(MusicalTime::ticks(4 * PPQ)), 1);
    assert_eq!(musical_time_to_bars(MusicalTime::beats(17)), 4);
    assert_eq!(musical_time_to_bars(MusicalTime::ticks(-1)), 0);
}

#[test]
fn effective_duration_uses_first_matching_override() {
    let lengths = SectionLengths {
        base_bars: 8,
        variant_bars: vec![
            ("A".to_string(), Some(4)),
            ("B".to_string(), None),
            ("A".to_string(), Some(16)),
        ],
    };
    assert_eq!(effective_duration_bars(&lengths, "A"), 4);
    assert_eq!(effective_duration_bars(&lengths, "B"), 8);
    assert_eq!(effective_duration_bars(&lengths, "C"), 8);
    assert_eq!(effective_duration_bars(&lengths, ""), 8);
}

#[test]
fn arrangement_total_is_latest_block_end() {
    assert_eq!(arrangement_total_bars(&[]), 0);
    assert_eq!(arrangement_total_bars(&[(0, 8), (8, 4)]), 12);
    assert_eq!(arrangement_total_bars(&[(0, 32), (8, 4)]), 32);
    assert_eq!(arrangement_total_bars(&[(5, 0)]), 5);
}

#[test]
fn target_idx_picks_nearest_center_first_on_ties() {
    let layout = [(0usize, 4i32), (1, 12), (2, 20)];
    // Dragging the first block (center 4) by +7 bars lands at 11.
    assert_eq!(target_idx_for_delta(0, 4, 7, &layout), 1);
    assert_eq!(target_idx_for_delta(0, 4, 0, &layout), 0);
    assert_eq!(target_idx_for_delta(0, 4, 100, &layout), 2);
    // Exactly between 4 and 12: the earlier block wins.
    assert_eq!(target_idx_for_delta(2, 20, -12, &layout), 0);
    assert_eq!(target_idx_for_delta(1, 12, 0, &[]), 1);
}

#[test]
fn ribbon_tiles_loop_over_block() {
    let slots = ribbon_slots(10, 5, 2);
    assert_eq!(slots.len(), 5);
    assert_eq!(slots[0], RibbonSlot { bar: 10, event_idx: 0, is_first_of_loop: true });
    assert_eq!(slots[1], RibbonSlot { bar: 11, event_idx: 1, is_first_of_loop: false });
    assert_eq!(slots[2], RibbonSlot { bar: 12, event_idx: 0, is_first_of_loop: true });
    assert_eq!(slots[4], RibbonSlot { bar: 14, event_idx: 0, is_first_of_loop: true });
    assert!(ribbon_slots(3, 0, 0).is_empty());
}

#[test]
fn lane_blocks_skip_missing_sections() {
    let sections = vec![
        SectionInfo {
            id: 7,
            name: "Verse".to_string(),
            default_variant: "base".to_string(),
            lengths: SectionLengths { base_bars: 8, variant_bars: vec![("short".to_string(), Some(4))] },
        },
        SectionInfo {
            id: 9,
            name: "Chorus".to_string(),
            default_variant: "base".to_string(),
            lengths: SectionLengths { base_bars: 4, variant_bars: vec![] },
        },
    ];
    let steps = vec![
        ArrangementStep { section: 7, variant: "base".to_string(), start: MusicalTime::zero() },
        ArrangementStep { section: 5, variant: "base".to_string(), start: MusicalTime::beats(32) },
        ArrangementStep { section: 7, variant: "short".to_string(), start: MusicalTime::beats(32) },
        ArrangementStep { section: 9, variant: "base".to_string(), start: MusicalTime::beats(48) },
    ];
    let blocks = arrangement_blocks(&steps, &sections);
    assert_eq!(blocks.len(), 3);
    assert_eq!(blocks[0].idx, 0);
    assert_eq!(blocks[0].section_name, "Verse");
    assert_eq!(blocks[0].bars, 8);
    assert_eq!(blocks[1].idx, 2);
    assert_eq!(blocks[1].start_bar, 8);
    assert_eq!(blocks[1].bars, 4);
    assert_eq!(blocks[1].variant, "short");
    assert_eq!(blocks[2].section_id, 9);
    assert_eq!(blocks[2].start_bar, 12);
    let spans: Vec<(u32, u32)> = blocks.iter().map(|b| (b.start_bar, b.bars)).collect();
    assert_eq!(arrangement_total_bars(&spans), 16);
}

#[test]
fn drag_layout_centers_and_source() {
    let layout = drag_layout(&[(0, 0, 8), (2, 8, 5), (3, 13, 1)]);
    assert_eq!(layout, vec![(0, 4), (2, 10), (3, 13)]);
    assert_eq!(source_center(&layout, 2), 10);
    assert_eq!(source_center(&layout, 1), 0);
    assert_eq!(drag_move(2, 2), None);
    assert_eq!(drag_move(2, 0), Some((2, 0)));
    // Bars past i32::MAX read as negative, as an `as i32` cast reads them.
    let wrapped = drag_layout(&[(0, 10, u32::MAX)]);
    assert_eq!(wrapped, vec![(0, 10)]);
}

#[test]
fn drag_preview_tracks_nearest_block() {
    let layout = [(0usize, 4i32), (1, 12), (2, 20)];
    let p = drag_preview(0, 4, 9, &layout);
    assert_eq!(p.from_idx, 0);
    assert_eq!(p.delta_bars, 9);
    assert_eq!(p.target_idx, 1);
}

#[test]
fn ribbon_slots_of_a_loop_without_chords_are_empty() {
    assert!(ribbon_slots(3, 4, 0).is_empty());
}

fn lane_block(idx: usize, section_id: u64, start_bar: u32, bars: u32) -> ArrangementBlock {
    ArrangementBlock {
        idx,
        section_id,
        section_name: String::from("S"),
        variant: String::from("base"),
        default_variant: String::from("base"),
        start_bar,
        bars,
    }
}

#[test]
fn ribbon_cells_tile_each_block_with_its_first_base_loop() {
    let blocks = vec![
        lane_block(0, 1, 0, 3),
        lane_block(1, 9, 3, 2),
        lane_block(2, 2, 5, 2),
        lane_block(3, 3, 7, 4),
        lane_block(4, 1, 11, 1),
    ];
    let sections = vec![
        RibbonSection { id: 1, base_loops: vec![100, 200] },
        RibbonSection { id: 2, base_loops: vec![] },
        RibbonSection { id: 3, base_loops: vec![300] },
    ];
    let loops = vec![
        RibbonLoop { id: 100, events_len: 2 },
        RibbonLoop { id: 200, events_len: 5 },
        RibbonLoop { id: 300, events_len: 0 },
    ];
    let cells = ribbon_cells(&blocks, &sections, &loops);
    let cell = |bar: u32, event_idx: usize| RibbonCell {
        bar,
        section_id: 1,
        loop_id: 100,
        event_idx,
        is_first_of_loop: event_idx == 0,
    };
    assert_eq!(cells, vec![cell(0, 0), cell(1, 1), cell(2, 0), cell(11, 0)]);
}

#[test]
fn block_length_text_counts_bars() {
    assert_eq!(block_length_text(1), "1 bar");
    assert_eq!(block_length_text(0), "0 bars");
    assert_eq!(block_length_text(16), "16 bars");
}

#[test]
fn block_highlight_prefers_selection_then_section() {
    assert_eq!(block_highlight(2, 7, Some(2), Some(7)), BlockHighlight::Selected);
    assert_eq!(block_highlight(3, 7, Some(2), Some(7)), BlockHighlight::Linked);
    assert_eq!(block_highlight(3, 8, Some(2), Some(7)), BlockHighlight::Plain);
    assert_eq!(block_highlight(3, 8, None, None), BlockHighlight::Plain);
}

#[test]
fn only_the_dragged_block_is_dragging() {
    let p = ArrangementDragPreview { from_idx: 1, delta_bars: 2, target_idx: 3 };
    assert!(block_is_dragging(1, Some(p)));
    assert!(!block_is_dragging(3, Some(p)));
    assert!(!block_is_dragging(1, None));
}

#[test]
fn inner_bar_path_draws_a_line_between_bars() {
    assert_eq!(inner_bar_path(0), "");
    assert_eq!(inner_bar_path(1), "");
    assert_eq!(inner_bar_path(3), "M 1 6 L 1 94 M 2 6 L 2 94 ");
}
