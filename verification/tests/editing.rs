use modtool::marker::{insert_marker, insert_markers};
use modtool::merge::{merge, merge_from, MergeError};
use modtool::module::{validate_sample_number, Channel, Module, Pattern, Row, SampleInfo};
use modtool::prune::{remove_unused_patterns, remove_unused_samples};
use modtool::usage::{find_unused_patterns, find_unused_samples, integrity_warnings};

fn ch(period: u16, sample_number: u8, effect: u16) -> Channel {
    Channel { period, sample_number, effect }
}

fn one_row_pattern(cells: Vec<Channel>) -> Pattern {
    Pattern { rows: vec![Row { channels: cells }] }
}

fn sample(name: &str, length: u16) -> SampleInfo {
    SampleInfo {
        name: name.to_string(),
        length,
        finetune: 0,
        volume: 64,
        repeat_start: 0,
        repeat_length: 0,
        data: vec![0u8; length as usize * 2],
    }
}

fn module(length: u8, active: Vec<u8>, patterns: Vec<Pattern>, samples: Vec<SampleInfo>) -> Module {
    let mut positions = active;
    while positions.len() < 128 {
        positions.push(0);
    }
    Module { name: "song".to_string(), length, positions, patterns, sample_info: samples }
}

#[test]
fn find_unused_patterns_scenario() {
    let patterns = (0..4).map(|i| one_row_pattern(vec![ch(100 + i, 0, 0)])).collect();
    let m = module(2, vec![0, 2], patterns, vec![]);
    assert_eq!(find_unused_patterns(&m), vec![1, 3]);
}

#[test]
fn remove_unused_patterns_scenario() {
    let patterns = (0..4).map(|i| one_row_pattern(vec![ch(100 + i, 0, 0)])).collect();
    let mut m = module(2, vec![0, 2], patterns, vec![]);
    remove_unused_patterns(&mut m);
    assert_eq!(m.patterns.len(), 2);
    assert_eq!(&m.positions[0..2], &[0, 1]);
    // The renumbered entries still address the same pattern content.
    assert_eq!(m.patterns[0].rows[0].channels[0].period, 100);
    assert_eq!(m.patterns[1].rows[0].channels[0].period, 102);
    assert!(find_unused_patterns(&m).is_empty());
}

#[test]
fn remove_unused_patterns_keeps_all_used() {
    let patterns = (0..3).map(|i| one_row_pattern(vec![ch(200 + i, 0, 0)])).collect();
    let mut m = module(3, vec![2, 1, 0], patterns, vec![]);
    remove_unused_patterns(&mut m);
    assert_eq!(m.patterns.len(), 3);
    assert_eq!(&m.positions[0..3], &[2, 1, 0]);
}

#[test]
fn find_unused_samples_basic() {
    let patterns = vec![one_row_pattern(vec![ch(0, 2, 0), ch(0, 0, 0)])];
    let m = module(
        1,
        vec![0],
        patterns,
        vec![sample("a", 4), sample("b", 4), sample("c", 4)],
    );
    assert_eq!(find_unused_samples(&m), vec![1, 3]);
}

#[test]
fn integrity_warning_reported() {
    let patterns = vec![one_row_pattern(vec![ch(0, 2, 0), ch(0, 200, 0)])];
    let m = module(1, vec![0], patterns, vec![sample("a", 4), sample("b", 4)]);
    let warnings = integrity_warnings(&m);
    assert_eq!(warnings.len(), 1);
    assert_eq!(warnings[0].pattern, 0);
    assert_eq!(warnings[0].row, 0);
    assert_eq!(warnings[0].channel, 1);
    assert_eq!(warnings[0].value, 200);
    // The out-of-range reference does not disturb the usage scan.
    assert_eq!(find_unused_samples(&m), vec![1]);
}

#[test]
fn remove_unused_samples_renumbers() {
    let patterns = vec![one_row_pattern(vec![ch(428, 2, 0)])];
    let mut m = module(
        1,
        vec![0],
        patterns,
        vec![sample("a", 4), sample("b", 5), sample("c", 6)],
    );
    remove_unused_samples(&mut m);
    // The reference follows its sample: logical number 2 became 1.
    assert_eq!(m.patterns[0].rows[0].channels[0].sample_number, 1);
    assert_eq!(m.sample_info.len(), 3);
    assert_eq!(m.sample_info[0].name, "b");
    assert_eq!(m.sample_info[0].length, 5);
    // Recycled slots sit at the back, highest removed number first,
    // cleared but keeping their descriptive fields.
    assert_eq!(m.sample_info[1].name, "c");
    assert_eq!(m.sample_info[1].length, 0);
    assert!(m.sample_info[1].data.is_empty());
    assert_eq!(m.sample_info[2].name, "a");
    assert_eq!(m.sample_info[2].length, 0);
    assert_eq!(m.sample_info[2].repeat_start, 0);
    assert_eq!(m.sample_info[2].repeat_length, 0);
}

#[test]
fn insert_marker_first_free() {
    // Three rows of two channels; the first effect-free cell is row 2,
    // channel 1.
    let mut pattern = Pattern {
        rows: vec![
            Row { channels: vec![ch(0, 0, 0x0c10), ch(0, 0, 0x0c20)] },
            Row { channels: vec![ch(0, 0, 0x0c30), ch(0, 0, 0x0c40)] },
            Row { channels: vec![ch(0, 0, 0x0c50), ch(428, 1, 0)] },
        ],
    };
    let ok = insert_marker(&mut pattern);
    assert!(ok);
    assert_eq!(pattern.rows[2].channels[1].effect, 0x0e81);
    // The marked cell keeps its pitch and instrument; all other cells
    // are untouched.
    assert_eq!(pattern.rows[2].channels[1].period, 428);
    assert_eq!(pattern.rows[2].channels[1].sample_number, 1);
    assert_eq!(pattern.rows[0].channels[0].effect, 0x0c10);
    assert_eq!(pattern.rows[0].channels[1].effect, 0x0c20);
    assert_eq!(pattern.rows[1].channels[0].effect, 0x0c30);
    assert_eq!(pattern.rows[1].channels[1].effect, 0x0c40);
    assert_eq!(pattern.rows[2].channels[0].effect, 0x0c50);
}

#[test]
fn insert_marker_no_free_cell() {
    let mut pattern = Pattern {
        rows: vec![Row { channels: vec![ch(0, 0, 0x0c10), ch(0, 0, 0x0f06)] }],
    };
    let before = pattern.clone();
    let ok = insert_marker(&mut pattern);
    assert!(!ok);
    assert_eq!(pattern, before);
}

#[test]
fn insert_marker_already_compliant() {
    let mut pattern = Pattern {
        rows: vec![Row { channels: vec![ch(0, 0, 0x0e85), ch(0, 0, 0)] }],
    };
    let before = pattern.clone();
    let ok = insert_marker(&mut pattern);
    assert!(ok);
    assert_eq!(pattern, before);
}

#[test]
fn insert_markers_reports_failures() {
    let compliant = one_row_pattern(vec![ch(0, 0, 0x0e82)]);
    let insertable = one_row_pattern(vec![ch(0, 0, 0x0c00), ch(0, 0, 0)]);
    let full = one_row_pattern(vec![ch(0, 0, 0x0c00), ch(0, 0, 0x0f03)]);
    let mut m = module(1, vec![0], vec![compliant, insertable, full], vec![]);
    let failed = insert_markers(&mut m);
    assert_eq!(failed, vec![2]);
    assert_eq!(m.patterns[0].rows[0].channels[0].effect, 0x0e82);
    assert_eq!(m.patterns[1].rows[0].channels[1].effect, 0x0e81);
    assert_eq!(m.patterns[2].rows[0].channels[0].effect, 0x0c00);
}

#[test]
fn merge_appends_patterns_and_positions() {
    let mut target = module(1, vec![0], vec![one_row_pattern(vec![ch(1, 0, 0)])], vec![]);
    let source = module(
        2,
        vec![1, 0],
        vec![one_row_pattern(vec![ch(2, 0, 0)]), one_row_pattern(vec![ch(3, 0, 0)])],
        vec![],
    );
    let r = merge_from(&mut target, &source, false);
    assert!(r.is_ok());
    assert_eq!(target.length, 3);
    assert_eq!(target.patterns.len(), 3);
    // Appended play-order entries are offset by the old pattern count.
    assert_eq!(&target.positions[0..3], &[0, 2, 1]);
    assert_eq!(target.patterns[1].rows[0].channels[0].period, 2);
    assert_eq!(target.patterns[2].rows[0].channels[0].period, 3);
}

#[test]
fn merge_sync_keeps_only_transport_effects() {
    let mut target = module(0, vec![], vec![], vec![]);
    let source = module(
        1,
        vec![0],
        vec![one_row_pattern(vec![
            ch(428, 3, 0x0c20),
            ch(320, 1, 0x0f06),
            ch(100, 2, 0x0d12),
            ch(200, 4, 0x0b01),
            ch(300, 5, 0x0e83),
        ])],
        vec![],
    );
    let r = merge_from(&mut target, &source, true);
    assert!(r.is_ok());
    let cells = &target.patterns[0].rows[0].channels;
    // Pitch and instrument are always cleared in sync mode.
    for cell in cells.iter() {
        assert_eq!(cell.period, 0);
        assert_eq!(cell.sample_number, 0);
    }
    // Only loop, speed, break and jump effects survive.
    assert_eq!(cells[0].effect, 0);
    assert_eq!(cells[1].effect, 0x0f06);
    assert_eq!(cells[2].effect, 0x0d12);
    assert_eq!(cells[3].effect, 0x0b01);
    assert_eq!(cells[4].effect, 0x0e83);
}

#[test]
fn merge_position_table_overflow() {
    let mut target = module(100, vec![0; 100], vec![one_row_pattern(vec![ch(1, 0, 0)])], vec![]);
    let before = target.clone();
    let source = module(50, vec![0; 50], vec![one_row_pattern(vec![ch(2, 0, 0)])], vec![]);
    let r = merge_from(&mut target, &source, false);
    assert_eq!(r, Err(MergeError::PositionTableFull { required: 150 }));
    assert_eq!(target, before);
}

#[test]
fn merge_pattern_table_overflow() {
    let empty = || Pattern { rows: vec![] };
    let mut target = module(0, vec![], (0..200).map(|_| empty()).collect(), vec![]);
    let source = module(0, vec![], (0..60).map(|_| empty()).collect(), vec![]);
    let r = merge_from(&mut target, &source, false);
    assert_eq!(r, Err(MergeError::PatternTableFull { required: 260 }));
    assert_eq!(target.patterns.len(), 200);
}

#[test]
fn merge_many_sources_sums_lengths() {
    let mut target = module(1, vec![0], vec![one_row_pattern(vec![ch(1, 0, 0)])], vec![]);
    let sources = vec![
        module(2, vec![0, 0], vec![one_row_pattern(vec![ch(2, 0, 0)])], vec![]),
        module(3, vec![0, 0, 0], vec![one_row_pattern(vec![ch(3, 0, 0)])], vec![]),
    ];
    let r = merge(&mut target, &sources, false);
    assert!(r.is_ok());
    assert_eq!(target.length, 6);
    assert_eq!(target.patterns.len(), 3);
    assert_eq!(&target.positions[0..6], &[0, 1, 1, 2, 2, 2]);
}

#[test]
fn validate_sample_number_range() {
    assert!(!validate_sample_number(0));
    assert!(validate_sample_number(1));
    assert!(validate_sample_number(31));
    assert!(!validate_sample_number(32));
}

#[test]
fn remove_unused_samples_shifts_invalid_references_too() {
    // A reference above 31 is an integrity anomaly; the renumbering
    // still shifts it down by the number of removed slots below it.
    let patterns = vec![one_row_pattern(vec![ch(0, 2, 0), ch(0, 200, 0)])];
    let mut m = module(
        1,
        vec![0],
        patterns,
        vec![sample("a", 4), sample("b", 5), sample("c", 6)],
    );
    remove_unused_samples(&mut m);
    assert_eq!(m.patterns[0].rows[0].channels[0].sample_number, 1);
    assert_eq!(m.patterns[0].rows[0].channels[1].sample_number, 198);
}

#[test]
fn merge_driver_rejects_combined_overflow() {
    let mut target = module(100, vec![0; 100], vec![one_row_pattern(vec![ch(1, 0, 0)])], vec![]);
    let before = target.clone();
    let sources = vec![
        module(20, vec![0; 20], vec![one_row_pattern(vec![ch(2, 0, 0)])], vec![]),
        module(20, vec![0; 20], vec![one_row_pattern(vec![ch(3, 0, 0)])], vec![]),
    ];
    let r = merge(&mut target, &sources, false);
    assert_eq!(r, Err(MergeError::PositionTableFull { required: 140 }));
    assert_eq!(target, before);
}

#[test]
fn prune_patterns_on_module_without_patterns() {
    let mut m = module(0, vec![], vec![], vec![]);
    remove_unused_patterns(&mut m);
    assert!(m.patterns.is_empty());
    assert_eq!(m.length, 0);
}
