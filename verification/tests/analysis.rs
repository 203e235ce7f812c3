use modtool::inspect::{find_empty_patterns, pattern_is_empty, used_periods};
use modtool::module::{Channel, Module, Pattern, Row, SampleInfo};
use modtool::notes::resolve_note;
use modtool::stats::{count_used_samples, sample_stats, Stats};
use modtool::usecode::get_usecode;

fn cell(period: u16, sample_number: u8, effect: u16) -> Channel {
    Channel { period, sample_number, effect }
}

fn grid(rows: Vec<Vec<Channel>>) -> Pattern {
    Pattern { rows: rows.into_iter().map(|channels| Row { channels }).collect() }
}

fn descriptor(name: &str, length: u16, finetune: u8, volume: u8) -> SampleInfo {
    SampleInfo {
        name: name.to_string(),
        length,
        finetune,
        volume,
        repeat_start: 0,
        repeat_length: 0,
        data: vec![0u8; length as usize * 2],
    }
}

fn song(length: u8, active: Vec<u8>, patterns: Vec<Pattern>, samples: Vec<SampleInfo>) -> Module {
    let mut positions = active;
    while positions.len() < 128 {
        positions.push(0);
    }
    Module { name: "song".to_string(), length, positions, patterns, sample_info: samples }
}

#[test]
fn usecode_volume_slide_only() {
    let m = song(1, vec![0], vec![grid(vec![vec![cell(0, 0, 0x0a01)]])], vec![]);
    assert_eq!(get_usecode(&m), 1 << 10);
    assert_eq!(get_usecode(&m), 0x400);
}

#[test]
fn usecode_bare_command_zero_maps_to_bit_eight() {
    let m = song(1, vec![0], vec![grid(vec![vec![cell(0, 0, 0x0055)]])], vec![]);
    assert_eq!(get_usecode(&m), 1 << 8);
}

#[test]
fn usecode_all_zero_module() {
    let m = song(1, vec![0], vec![grid(vec![vec![cell(0, 0, 0)]])], vec![]);
    assert_eq!(get_usecode(&m), 0);
}

#[test]
fn usecode_extended_command_and_finetune() {
    let m = song(
        1,
        vec![0],
        vec![grid(vec![vec![cell(0, 0, 0x0e93)]])],
        vec![descriptor("a", 4, 3, 64)],
    );
    // Extended command 9 lands in the second flag bank; the nonzero
    // finetune flags bit 0 on top.
    assert_eq!(get_usecode(&m), (1 << 25) | 1);
}

#[test]
fn resolve_exact_match() {
    let nm = resolve_note(856, false).unwrap();
    assert!(nm.exact);
    assert_eq!(nm.index, 12);
    assert_eq!(nm.semitone, 0);
    assert_eq!(nm.octave, 1);
    assert_eq!(nm.name, "C");
}

#[test]
fn resolve_scientific_pitch_offsets_octave() {
    let nm = resolve_note(856, true).unwrap();
    assert_eq!(nm.octave, 3);
    assert_eq!(nm.name, "C");
}

#[test]
fn resolve_nearest_match_not_exact() {
    let nm = resolve_note(855, false).unwrap();
    assert!(!nm.exact);
    assert_eq!(nm.index, 12);
    assert_eq!(nm.name, "C");
}

#[test]
fn resolve_tie_keeps_first_entry() {
    // 1664 is equally far (48) from table entries 1712 and 1616; the
    // scan keeps the first minimum.
    let nm = resolve_note(1664, false).unwrap();
    assert_eq!(nm.index, 0);
    assert!(!nm.exact);
    assert_eq!(nm.name, "C");
    assert_eq!(nm.octave, 0);
}

#[test]
fn resolve_zero_period_is_an_error() {
    assert!(resolve_note(0, false).is_none());
}

#[test]
fn resolve_names_every_semitone() {
    let expected = ["C", "C#", "D", "D#", "E", "F", "F#", "G", "G#", "A", "A#", "B"];
    let first_octave = [1712u16, 1616, 1525, 1440, 1357, 1281, 1209, 1141, 1077, 1017, 961, 907];
    for (i, period) in first_octave.iter().enumerate() {
        let nm = resolve_note(*period, false).unwrap();
        assert!(nm.exact);
        assert_eq!(nm.index, i);
        assert_eq!(nm.name, expected[i]);
        assert_eq!(nm.octave, 0);
    }
}

#[test]
fn stats_accumulator_exact() {
    let mut st = Stats::new();
    assert_eq!(st.min, u32::MAX);
    assert_eq!(st.max, 0);
    st.update(10);
    st.update(4);
    assert_eq!(st.min, 4);
    assert_eq!(st.max, 10);
    assert_eq!(st.sum, 14);
    assert_eq!(st.num_values, 2);
    st.done();
    assert_eq!(st.avg, 7);
}

#[test]
fn stats_average_truncates() {
    let mut st = Stats::new();
    st.update(5);
    st.update(4);
    st.done();
    assert_eq!(st.avg, 4);
}

#[test]
fn sample_stats_over_used_samples_only() {
    let m = song(
        1,
        vec![0],
        vec![grid(vec![vec![cell(0, 0, 0)]])],
        vec![
            descriptor("a", 10, 1, 64),
            descriptor("b", 0, 7, 1),
            descriptor("c", 20, 3, 32),
        ],
    );
    let st = sample_stats(&m).unwrap();
    // Lengths are reported in bytes: words times two.
    assert_eq!(st.length.min, 20);
    assert_eq!(st.length.max, 40);
    assert_eq!(st.length.avg, 30);
    assert_eq!(st.length.num_values, 2);
    assert_eq!(st.volume.min, 32);
    assert_eq!(st.volume.max, 64);
    assert_eq!(st.volume.avg, 48);
    assert_eq!(st.finetune.min, 1);
    assert_eq!(st.finetune.max, 3);
    assert_eq!(st.finetune.sum, 4);
}

#[test]
fn sample_stats_without_used_samples() {
    let m = song(
        1,
        vec![0],
        vec![grid(vec![vec![cell(0, 0, 0)]])],
        vec![descriptor("a", 0, 0, 0)],
    );
    assert!(sample_stats(&m).is_none());
}

#[test]
fn count_used_samples_counts_nonzero_lengths() {
    let m = song(
        1,
        vec![0],
        vec![grid(vec![vec![cell(0, 0, 0)]])],
        vec![descriptor("a", 10, 0, 0), descriptor("b", 0, 0, 0), descriptor("c", 2, 0, 0)],
    );
    assert_eq!(count_used_samples(&m), 2);
}

#[test]
fn empty_patterns_found() {
    let empty = grid(vec![vec![cell(0, 0, 0), cell(0, 0, 0)]]);
    let with_note = grid(vec![vec![cell(428, 0, 0), cell(0, 0, 0)]]);
    let with_effect = grid(vec![vec![cell(0, 0, 0x0c20)]]);
    assert!(pattern_is_empty(&empty));
    assert!(!pattern_is_empty(&with_note));
    let m = song(1, vec![0], vec![with_note, empty, with_effect], vec![]);
    assert_eq!(find_empty_patterns(&m), vec![1]);
}

#[test]
fn used_periods_sorted_without_duplicates() {
    let p = grid(vec![
        vec![cell(428, 0, 0), cell(113, 0, 0)],
        vec![cell(428, 0, 0), cell(0, 0, 0)],
    ]);
    let m = song(1, vec![0], vec![p], vec![]);
    assert_eq!(used_periods(&m), vec![113, 428]);
}

#[test]
fn usecode_sync_whitelist_families_have_distinct_bits() {
    // One cell per family the sync merge keeps: Bxx, Dxx, Fxx and E8x.
    let m = song(
        1,
        vec![0],
        vec![grid(vec![vec![
            cell(0, 0, 0x0b01),
            cell(0, 0, 0x0d12),
            cell(0, 0, 0x0f06),
            cell(0, 0, 0x0e81),
        ]])],
        vec![],
    );
    assert_eq!(get_usecode(&m), (1 << 11) | (1 << 13) | (1 << 15) | (1 << 24));
}

#[test]
fn used_periods_of_silent_module_is_empty() {
    let m = song(1, vec![0], vec![grid(vec![vec![cell(0, 0, 0)]])], vec![]);
    assert!(used_periods(&m).is_empty());
}
