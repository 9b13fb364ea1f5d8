use speccomp::errors::ImportError;
use speccomp::importerts::{classify_decode_total, classify_track_count, scan_stem_entries, stem_file_name};

fn names(v: &[&str]) -> Vec<String> {
    v.iter().map(|s| s.to_string()).collect()
}

#[test]
fn scan_finds_all_four_in_order() {
    let entries = names(&["cover.png", "drums.mp3", "bass.mp3", "other.mp3", "vocals.mp3"]);
    let scan = scan_stem_entries(&entries).unwrap();
    assert!(!scan.is_original);
    assert_eq!(scan.positions.len(), 4);
    // positions follow the fixed stem order [bass, drums, vocals, other]
    assert_eq!(scan.positions, vec![2, 1, 4, 3]);
    for j in 0..4 {
        assert_eq!(entries[scan.positions[j]], stem_file_name(j));
    }
}

#[test]
fn scan_detects_ground_truth_marker() {
    let entries = names(&["bass.mp3", "drums.mp3", "vocals.mp3", "other.mp3", ".original"]);
    let scan = scan_stem_entries(&entries).unwrap();
    assert!(scan.is_original);
}

#[test]
fn scan_missing_one_reports_found_three() {
    // P9: a directory without other.mp3 fails with found-count 3.
    let entries = names(&["bass.mp3", "drums.mp3", "vocals.mp3", ".original"]);
    match scan_stem_entries(&entries) {
        Err(ImportError::MissingStems { found }) => assert_eq!(found, 3),
        r => panic!("expected MissingStems, got {:?}", r),
    }
}

#[test]
fn scan_each_single_removal_reports_three() {
    let all = ["bass.mp3", "drums.mp3", "vocals.mp3", "other.mp3"];
    for skip in 0..4 {
        let entries: Vec<String> =
            all.iter().enumerate().filter(|(i, _)| *i != skip).map(|(_, s)| s.to_string()).collect();
        match scan_stem_entries(&entries) {
            Err(ImportError::MissingStems { found }) => assert_eq!(found, 3),
            r => panic!("expected MissingStems, got {:?}", r),
        }
    }
}

#[test]
fn scan_empty_directory_reports_zero() {
    let entries: Vec<String> = Vec::new();
    match scan_stem_entries(&entries) {
        Err(ImportError::MissingStems { found }) => assert_eq!(found, 0),
        r => panic!("expected MissingStems, got {:?}", r),
    }
}

#[test]
fn scan_ignores_similar_names() {
    // case-sensitive, exact names only
    let entries = names(&["Bass.mp3", "drums.mp4", "vocals.mp3.bak", "other.mp3"]);
    match scan_stem_entries(&entries) {
        Err(ImportError::MissingStems { found }) => assert_eq!(found, 1),
        r => panic!("expected MissingStems, got {:?}", r),
    }
}

#[test]
fn track_count_must_be_one() {
    assert!(classify_track_count(1).is_ok());
    match classify_track_count(2) {
        Err(ImportError::MultiTrack { count }) => assert_eq!(count, 2),
        r => panic!("expected MultiTrack, got {:?}", r),
    }
    assert!(matches!(classify_track_count(0), Err(ImportError::MultiTrack { count: 0 })));
}

#[test]
fn zero_samples_decoded_is_an_error() {
    assert!(matches!(classify_decode_total(0), Err(ImportError::EmptyResult)));
    assert!(classify_decode_total(1).is_ok());
    assert!(classify_decode_total(1_000_000).is_ok());
}

#[test]
fn error_messages_are_fixed_text() {
    assert!(!ImportError::DirectoryAccess.message().is_empty());
    assert!(!(ImportError::MissingStems { found: 3 }).message().is_empty());
    assert!(!ImportError::EmptyResult.message().is_empty());
}
