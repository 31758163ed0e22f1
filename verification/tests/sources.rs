use chd_studio::sources::{is_sheet_ext, track_names};

#[test]
fn sheet_extensions() {
    assert!(is_sheet_ext("cue"));
    assert!(is_sheet_ext("GDI"));
    assert!(is_sheet_ext("Toc"));
    assert!(!is_sheet_ext("bin"));
    assert!(!is_sheet_ext("cuee"));
}

#[test]
fn cue_tracks_between_quotes() {
    let cue = "FILE \"Game (Track 1).bin\" BINARY\r\n  TRACK 01 MODE2/2352\r\n    INDEX 01 00:00:00\r\nFILE \"Game (Track 2).bin\" BINARY\r\n";
    assert_eq!(track_names(cue), vec!["Game (Track 1).bin".to_string(), "Game (Track 2).bin".to_string()]);
}

#[test]
fn gdi_tracks_as_words() {
    let gdi = "3\n1 0 4 2352 track01.bin 0\n2 756 0 2352 track02.RAW 0\n3 45000 4 2352 track03.bin 0\n";
    assert_eq!(
        track_names(gdi),
        vec!["track01.bin".to_string(), "track02.RAW".to_string(), "track03.bin".to_string()]
    );
}

#[test]
fn odd_sheet_lines() {
    // an unterminated quote names nothing
    assert!(track_names("FILE \"broken.bin BINARY").is_empty());
    // an empty pair of quotes names an empty file
    assert_eq!(track_names("FILE \"\" BINARY"), vec![String::new()]);
    assert_eq!(track_names("x.iso\ty.ISO z.img"), vec!["x.iso".to_string(), "y.ISO".to_string()]);
    assert!(track_names("").is_empty());
}
