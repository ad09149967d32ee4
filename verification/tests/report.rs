use nbs_cli::{decimal, instrument_summary, note_count, report_lines, SongOverview};

#[test]
fn decimals() {
    assert_eq!(decimal(0), "0");
    assert_eq!(decimal(7), "7");
    assert_eq!(decimal(10), "10");
    assert_eq!(decimal(1234567890), "1234567890");
    assert_eq!(decimal(u64::MAX), u64::MAX.to_string());
}

#[test]
fn instrument_summaries() {
    assert_eq!(instrument_summary(0, 0), "no instruments");
    assert_eq!(instrument_summary(0, 3), "custom");
    assert_eq!(instrument_summary(16, 0), "vanilla");
    assert_eq!(instrument_summary(16, 2), "16 vanilla, 2 custom");
}

#[test]
fn notes_are_summed_over_layers() {
    assert_eq!(note_count(&vec![]), 0);
    assert_eq!(note_count(&vec![3, 0, 12]), 15);
}

#[test]
fn report_lines_of_a_song() {
    let o = SongOverview {
        name: "Theme".to_string(),
        description: "A test song".to_string(),
        author: "Me".to_string(),
        original_author: "Someone".to_string(),
        notes: 120,
        instruments: 18,
        vanilla_instruments: 16,
        custom_instruments: 2,
        layers: 4,
        ticks: 640,
    };
    assert_eq!(
        report_lines(&o),
        vec![
            "========== 'Theme' ==========\n".to_string(),
            "A test song".to_string(),
            "\nAuthor: Me".to_string(),
            "Original Author: Someone".to_string(),
            "Notes: 120".to_string(),
            "Instruments: 18 (16 vanilla, 2 custom)".to_string(),
            "Layers: 4".to_string(),
            "Ticks: 640 ticks".to_string(),
        ]
    );
}
