use kolzo_utils::clock::{local_time_text, time_text_at};
use kolzo_utils::listing::{listing_text, render_listing};
use kolzo_utils::metadata::{collect_listing, EntryMetadata, EntryProbe, ListError};
use kolzo_utils::text::{attributes_description, decimal_text};

fn file(size: u64) -> EntryMetadata {
    EntryMetadata { is_dir: false, size, modified: Some(0), attributes: 0 }
}

fn dir() -> EntryMetadata {
    EntryMetadata { is_dir: true, size: 4096, modified: None, attributes: 2 }
}

const SEPARATOR: &str = "------------------";

fn separator_lines(text: &str) -> usize {
    text.lines().filter(|l| *l == SEPARATOR).count()
}

#[test]
fn missing_directory_is_an_error() {
    assert_eq!(collect_listing(None), Err(ListError::DirectoryUnreadable));
}

#[test]
fn empty_directory_lists_nothing() {
    assert_eq!(collect_listing(Some(vec![])), Ok(vec![]));
    assert_eq!(render_listing(&vec![]), Some(String::new()));
    assert_eq!(listing_text(&vec![], &vec![]), "");
}

#[test]
fn unreadable_entries_are_passed_over() {
    let probes = vec![
        EntryProbe::Unreadable,
        EntryProbe::Listed(file(10)),
        EntryProbe::Unreadable,
        EntryProbe::Listed(dir()),
    ];
    assert_eq!(collect_listing(Some(probes)), Ok(vec![file(10), dir()]));
}

#[test]
fn missing_metadata_fails_the_listing() {
    let probes = vec![EntryProbe::Listed(file(1)), EntryProbe::NoMetadata, EntryProbe::Listed(dir())];
    assert_eq!(collect_listing(Some(probes)), Err(ListError::MetadataUnreadable));
}

#[test]
fn decimal_text_values() {
    assert_eq!(decimal_text(0), "0");
    assert_eq!(decimal_text(7), "7");
    assert_eq!(decimal_text(10), "10");
    assert_eq!(decimal_text(1234567890), "1234567890");
    assert_eq!(decimal_text(u64::MAX), "18446744073709551615");
}

#[test]
fn attribute_flags() {
    assert_eq!(attributes_description(0), "Read-Only: false, Hidden: false, System: false");
    assert_eq!(attributes_description(1), "Read-Only: true, Hidden: false, System: false");
    assert_eq!(attributes_description(6), "Read-Only: false, Hidden: true, System: true");
    assert_eq!(attributes_description(0x27), "Read-Only: true, Hidden: true, System: true");
    assert_eq!(attributes_description(0x20), "Read-Only: false, Hidden: false, System: false");
}

#[test]
fn epoch_formats_in_utc() {
    assert_eq!(time_text_at(0, 0), Some("1970-01-01 00:00:00".to_string()));
}

#[test]
fn times_follow_the_offset() {
    assert_eq!(time_text_at(1431648000, 0), Some("2015-05-15 00:00:00".to_string()));
    assert_eq!(time_text_at(0, 3600), Some("1970-01-01 01:00:00".to_string()));
    assert_eq!(time_text_at(0, -1), Some("1969-12-31 23:59:59".to_string()));
    assert_eq!(time_text_at(1700000000, 19800), Some("2023-11-15 03:43:20".to_string()));
}

#[test]
fn unrepresentable_times_give_none() {
    assert_eq!(time_text_at(i64::MAX, 1), None);
    assert_eq!(time_text_at(i64::MAX, 0), None);
    assert_eq!(time_text_at(i64::MIN, -1), None);
}

#[test]
fn local_time_has_calendar_shape() {
    let t = local_time_text(0).unwrap();
    assert_eq!(t.len(), 19);
    assert!(t.starts_with("1969-12-31") || t.starts_with("1970-01-01"));
}

#[test]
fn one_record_text() {
    let text = listing_text(&vec![file(42)], &vec!["1970-01-01 00:00:00".to_string()]);
    assert_eq!(
        text,
        "Entry at index 0\n\
         1. Name of File: 0\n\
         2. Is Directory: false\n\
         3. File Size: 42 bytes\n\
         4. Modification Time: 1970-01-01 00:00:00\n\
         5. Permissions: \"Read-Only: false, Hidden: false, System: false\"\n\
         ------------------\n"
    );
}

#[test]
fn records_are_numbered_and_separated() {
    let entries = vec![file(5), dir(), file(123456)];
    let times = vec!["a".to_string(), "b".to_string(), "c".to_string()];
    let text = listing_text(&entries, &times);
    let lines: Vec<&str> = text.lines().collect();
    assert_eq!(lines.len(), 21);
    assert_eq!(separator_lines(&text), 3);
    for k in 0..3 {
        assert_eq!(lines[7 * k], format!("Entry at index {}", k));
        assert_eq!(lines[7 * k + 1], format!("1. Name of File: {}", k));
        assert_eq!(lines[7 * k + 6], SEPARATOR);
    }
    assert_eq!(lines[3], "3. File Size: 5 bytes");
    assert_eq!(lines[9], "2. Is Directory: true");
    assert_eq!(lines[11], "4. Modification Time: b");
    assert_eq!(lines[12], "5. Permissions: \"Read-Only: false, Hidden: true, System: false\"");
    assert_eq!(lines[17], "3. File Size: 123456 bytes");
}

#[test]
fn rendered_listing_reports_every_entry() {
    let entries = vec![file(0), dir(), file(987)];
    let text = render_listing(&entries).unwrap();
    let lines: Vec<&str> = text.lines().collect();
    assert_eq!(lines.len(), 21);
    assert_eq!(separator_lines(&text), 3);
    assert_eq!(lines[2], "2. Is Directory: false");
    assert_eq!(lines[3], "3. File Size: 0 bytes");
    assert_eq!(lines[9], "2. Is Directory: true");
    assert_eq!(lines[10], "3. File Size: 4096 bytes");
    assert_eq!(lines[17], "3. File Size: 987 bytes");
    assert!(lines[4].starts_with("4. Modification Time: 19"));
    assert_eq!(lines[4].len(), "4. Modification Time: ".len() + 19);
}

#[test]
fn unrepresentable_modification_time_fails_rendering() {
    let entry = EntryMetadata { is_dir: false, size: 1, modified: Some(i64::MAX), attributes: 0 };
    assert_eq!(render_listing(&vec![entry]), None);
}

#[test]
fn billion_seconds_formats_in_utc() {
    assert_eq!(time_text_at(1_000_000_000, 0), Some("2001-09-09 01:46:40".to_string()));
}

#[test]
fn same_instant_gives_same_text() {
    assert_eq!(time_text_at(86_399, -7200), time_text_at(86_399, -7200));
    assert_eq!(local_time_text(1_000_000_000), local_time_text(1_000_000_000));
}

#[test]
fn edge_of_calendar_range_still_formats() {
    assert!(time_text_at(8_000_000_000_000, 0).is_some());
    assert!(time_text_at(-8_000_000_000_000, 0).is_some());
    assert!(local_time_text(8_000_000_000_000 - 86_400).is_some());
    let entry = EntryMetadata { is_dir: false, size: 1, modified: Some(-7_000_000_000_000), attributes: 0 };
    assert!(render_listing(&vec![entry]).is_some());
}
