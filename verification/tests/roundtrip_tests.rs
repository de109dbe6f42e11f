use deltakit::errors::ParseErrorKind;
use deltakit::merging::Diagnostic;
use deltakit::driver::merge_savefiles;
use deltakit::savefile::SaveData;

fn int_line(v: i32) -> String {
    format!("{} ", v)
}

/// A schema-valid line sequence whose text matches the canonical rendering
/// of the merge driver line for line.
fn synthetic_save(chapter: i32) -> Vec<String> {
    let ch1 = chapter == 1;
    let mut lines: Vec<String> = Vec::new();
    lines.push("Kris".to_string());
    for k in 0..6 {
        lines.push(format!("Vessel{}", k));
    }
    for k in 0..3 {
        lines.push(int_line(k + 1));
    }
    lines.push(int_line(120)); // dark dollars
    lines.push(int_line(35)); // xp
    lines.push(int_line(2)); // level
    lines.push(int_line(4)); // inv
    lines.push(int_line(5)); // invc
    lines.push("1".to_string()); // dark world
    let stat_blocks = if ch1 { 4 } else { 5 };
    for b in 0..stat_blocks {
        // the driver writes the character back healed, so the synthetic
        // save keeps hit points at the maximum
        lines.push(int_line(10 * b + 1));
        for k in 1..9 {
            lines.push(int_line(10 * b + k));
        }
        lines.push(format!("style{}", b));
        for s in 0..4 {
            for k in 0..8 {
                lines.push(int_line(b + s + k));
            }
            if !ch1 {
                lines.push(int_line(3)); // item element
                lines.push("1.5 ".to_string()); // element amount
            }
        }
        for k in 0..12 {
            lines.push(int_line(if k < 2 { k + 1 } else { 0 }));
        }
    }
    for k in 0..3 {
        lines.push(int_line(60 + k)); // combat tuning
    }
    if ch1 {
        for k in 0..13 {
            lines.push(int_line(if k < 3 { k + 1 } else { 0 })); // items
            lines.push(int_line(if k < 2 { 20 + k } else { 0 })); // key items
            // armor reconciliation reads the weapon difference list, so a
            // text round trip needs the two lists to hold the same values
            lines.push(int_line(if k < 4 { 30 + k } else { 0 })); // weapons
            lines.push(int_line(if k < 4 { 30 + k } else { 0 })); // armors
        }
    } else {
        for k in 0..13 {
            lines.push(int_line(if k < 3 { k + 1 } else { 0 }));
            lines.push(int_line(if k < 2 { 20 + k } else { 0 }));
        }
        for k in 0..48 {
            // see the chapter 1 note: armors mirror the weapons
            lines.push(int_line(if k < 4 { 30 + k } else { 0 }));
            lines.push(int_line(if k < 4 { 30 + k } else { 0 }));
        }
        for k in 0..72 {
            lines.push(int_line(if k < 2 { 50 + k } else { 0 }));
        }
    }
    lines.push("97.5 ".to_string()); // tension
    lines.push(int_line(100)); // max tension
    for k in 0..11 {
        lines.push(int_line(70 + k)); // light-world stats
    }
    for k in 0..8 {
        lines.push(int_line(if k < 2 { k + 1 } else { 0 })); // lw items
        lines.push(int_line(if k == 0 { 201 } else { 0 })); // lw phone
    }
    for k in 0..2500 {
        lines.push(if k == 7 { "2.5 ".to_string() } else { "0 ".to_string() });
    }
    if ch1 {
        for _ in 0..7499 {
            lines.push("0".to_string());
        }
    }
    lines.push(int_line(10)); // plot value
    lines.push(int_line(130)); // room
    lines.push("3600 ".to_string()); // play time in frames
    lines
}

#[test]
fn round_trip_chapter_two() {
    let lines = synthetic_save(2);
    let save = SaveData::read(2, &lines).expect("decode");
    assert_eq!(save.time_played, 120);
    let mut diag: Vec<Diagnostic> = Vec::new();
    let merged = merge_savefiles(&save, &save, Some(&save), &mut diag).expect("merge");
    assert_eq!(merged.len(), 3055);
    assert_eq!(merged.len(), lines.len());
    for (i, m) in merged.iter().enumerate() {
        assert!(!m.is_conflict(), "line {} conflicted", i);
        assert_eq!(m.to_merge_string(7), lines[i], "line {} differs", i);
    }
    assert_eq!(diag.len(), 0);
}

#[test]
fn round_trip_chapter_one() {
    let lines = synthetic_save(1);
    let save = SaveData::read(1, &lines).expect("decode");
    let mut diag: Vec<Diagnostic> = Vec::new();
    let merged = merge_savefiles(&save, &save, Some(&save), &mut diag).expect("merge");
    assert_eq!(merged.len(), 10318);
    assert_eq!(merged.len(), lines.len());
    for (i, m) in merged.iter().enumerate() {
        assert!(!m.is_conflict(), "line {} conflicted", i);
        assert_eq!(m.to_merge_string(7), lines[i], "line {} differs", i);
    }
}

#[test]
fn chapter_mismatch_is_rejected() {
    let ours = SaveData::read(2, &synthetic_save(2)).expect("decode");
    let mut theirs = SaveData::read(2, &synthetic_save(2)).expect("decode");
    theirs.chapter = 3;
    let mut diag: Vec<Diagnostic> = Vec::new();
    let r = merge_savefiles(&ours, &theirs, None, &mut diag);
    assert!(r.is_err());
    assert_eq!(r.unwrap_err().message(), "Chapter mismatch");
}

#[test]
fn trailing_blank_line_is_tolerated() {
    let mut lines = synthetic_save(2);
    lines.push(String::new());
    assert!(SaveData::read(2, &lines).is_ok());

    let mut bad = synthetic_save(2);
    bad.push("junk".to_string());
    let err = SaveData::read(2, &bad).unwrap_err();
    assert_eq!(err.kind, ParseErrorKind::EofExpected);
}

#[test]
fn malformed_integer_reports_its_line() {
    // the dark-dollar line is the eleventh of the file
    let mut lines = synthetic_save(2);
    lines[10] = "pocket change".to_string();
    let err = SaveData::read(2, &lines).unwrap_err();
    assert_eq!(err.kind, ParseErrorKind::IntParse);
    assert_eq!(err.line, Some(11));
    assert_eq!(err.message(), "integer parse error on line 11");
}

#[test]
fn truncated_file_reports_eof() {
    let mut lines = synthetic_save(2);
    lines.truncate(100);
    let err = SaveData::read(2, &lines).unwrap_err();
    assert_eq!(err.kind, ParseErrorKind::EofUnexpected);
}

#[test]
fn two_way_merge_takes_larger_flags() {
    let ours = SaveData::read(2, &synthetic_save(2)).expect("decode");
    let mut other_lines = synthetic_save(2);
    // the first flag line of chapter 2 sits after 552 lines
    other_lines[552] = "3 ".to_string();
    let theirs = SaveData::read(2, &other_lines).expect("decode");
    let mut diag: Vec<Diagnostic> = Vec::new();
    let merged = merge_savefiles(&ours, &theirs, None, &mut diag).expect("merge");
    assert_eq!(merged[552].to_merge_string(7), "3 ");
}

#[test]
fn armor_reconciliation_reads_the_weapon_differences() {
    // the armor list is reconciled against the weapon difference list, as
    // the game's merge rules have it: a weapon value absent among the armors
    // is absorbed into the armor slots
    let mut lines = synthetic_save(2);
    // the first armor line sits right after the first weapon line
    lines[356] = "90 ".to_string();
    let save = SaveData::read(2, &lines).expect("decode");
    let mut diag: Vec<Diagnostic> = Vec::new();
    let merged = merge_savefiles(&save, &save, Some(&save), &mut diag).expect("merge");
    // weapon value 30 lands in the first free armor slot
    assert_eq!(merged[355 + 2 * 4 + 1].to_merge_string(7), "30 ");
}
