use chd_studio::progress::{final_ratio, flush_output, parse_progress, split_output, Progress};

#[test]
fn chdman_progress_line() {
    let p = parse_progress("Compressing, 43.2% complete... (ratio=51.0%)").unwrap();
    assert_eq!(
        p,
        Progress { percent: "43.2".to_string(), ratio: Some("51.0".to_string()), phase: "Comprimiendo" }
    );
}

#[test]
fn progress_phases() {
    assert_eq!(parse_progress("Extracting, 10.0% complete...").unwrap().phase, "Extrayendo");
    assert_eq!(parse_progress("Decompressing, 5% complete...").unwrap().phase, "Extrayendo");
    assert_eq!(parse_progress("Verifying, 99.9% complete...").unwrap().phase, "Verificando");
    assert_eq!(parse_progress("Analyzing, 1% complete...").unwrap().phase, "Analizando");
    assert_eq!(parse_progress("Working, 1% complete...").unwrap().phase, "Procesando");
    // only what stands before the first comma decides
    assert_eq!(parse_progress("Working, Compressing 1% complete").unwrap().phase, "Procesando");
}

#[test]
fn tqdm_bar_progress() {
    let p = parse_progress(" 43%|####      | 430/1000 [00:01<00:02]").unwrap();
    assert_eq!(p.percent, "43");
    assert_eq!(p.ratio, None);
    assert_eq!(p.phase, "Procesando");
    // the last percentage token wins
    assert_eq!(parse_progress("10% then 20%").unwrap().percent, "20");
    assert_eq!(parse_progress("7% then %").unwrap().percent, "7");
}

#[test]
fn lines_without_a_percentage() {
    assert_eq!(parse_progress("Input file: game.cue"), None);
    assert_eq!(parse_progress("100 % done"), None);
    assert_eq!(parse_progress("1.2.3% complete"), None);
    assert_eq!(parse_progress(".% complete"), None);
    assert_eq!(parse_progress(""), None);
}

#[test]
fn odd_numbers_are_read_as_text() {
    assert_eq!(parse_progress("x 5.% complete").unwrap().percent, "5.");
    assert_eq!(parse_progress("x .5% complete").unwrap().percent, ".5");
    // the range check is left to the float conversion
    assert_eq!(parse_progress("x 250% complete").unwrap().percent, "250");
    let p = parse_progress("Compressing, 1% complete... (ratio=.)").unwrap();
    assert_eq!(p.ratio, None);
}

#[test]
fn final_ratios() {
    assert_eq!(final_ratio("Compression complete ... final ratio = 49.3%"), Some("49.3".to_string()));
    assert_eq!(final_ratio("final ratio =   7"), Some("7".to_string()));
    assert_eq!(final_ratio("final ratio = n/a"), None);
    assert_eq!(final_ratio("ratio = 5"), None);
}

#[test]
fn output_is_cut_at_cr_and_lf() {
    let mut acc = String::new();
    let lines = split_output(&mut acc, "Compressing, 1% complete\rCompressing, 2% com");
    assert_eq!(lines, vec!["Compressing, 1% complete".to_string()]);
    assert_eq!(acc, "Compressing, 2% com");
    let lines = split_output(&mut acc, "plete\r\n\n  done  \nrest");
    assert_eq!(lines, vec!["Compressing, 2% complete".to_string(), "done".to_string()]);
    assert_eq!(acc, "rest");
    assert_eq!(flush_output(&acc), Some("rest".to_string()));
    assert_eq!(flush_output("  \t "), None);
}

#[test]
fn chunking_does_not_change_the_lines() {
    let text = "a\r\nbb\r  \n c \nd";
    let mut whole = String::new();
    let all = split_output(&mut whole, text);
    for cut in 0..=text.len() {
        let mut acc = String::new();
        let mut got = split_output(&mut acc, &text[..cut]);
        got.extend(split_output(&mut acc, &text[cut..]));
        assert_eq!(got, all);
        assert_eq!(acc, whole);
    }
    assert_eq!(all, vec!["a".to_string(), "bb".to_string(), "c".to_string()]);
    assert_eq!(whole, "d");
}

#[test]
fn read_lines_are_clean() {
    let mut acc = String::new();
    let lines = split_output(&mut acc, "\r\n \r a\rb \n\n\t\n c\r");
    assert_eq!(lines, vec!["a".to_string(), "b".to_string(), "c".to_string()]);
    for l in &lines {
        assert!(!l.is_empty());
        assert!(!l.contains('\r') && !l.contains('\n'));
    }
    assert_eq!(acc, "");
}

#[test]
fn numbers_read_convert_to_floats() {
    for line in ["Compressing, 43.2% complete (ratio=51.0%)", "x 5.% complete", " .5%|##", "final ratio = 3."] {
        if let Some(p) = parse_progress(line) {
            assert!(p.percent.parse::<f32>().is_ok(), "{line}");
            if let Some(r) = p.ratio {
                assert!(r.parse::<f32>().is_ok());
            }
        }
        if let Some(r) = final_ratio(line) {
            assert!(r.parse::<f32>().is_ok());
        }
    }
}
