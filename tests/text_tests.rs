use grid_cropper::grid::SkipReason;
use grid_cropper::naming::{cell_path, get_filename, output_dir};
use grid_cropper::run::{select_source, summarize, CellStatus, Source, UsageError};
use grid_cropper::text::{parse_pos, parse_u32, push_decimal, PosError};

#[test]
fn parse_u32_reads_digits() {
    assert_eq!(parse_u32("123"), Some(123));
    assert_eq!(parse_u32("+7"), Some(7));
    assert_eq!(parse_u32("007"), Some(7));
    assert_eq!(parse_u32("4294967295"), Some(u32::MAX));
}

#[test]
fn parse_u32_refuses_others() {
    assert_eq!(parse_u32(""), None);
    assert_eq!(parse_u32("+"), None);
    assert_eq!(parse_u32("-1"), None);
    assert_eq!(parse_u32("12a"), None);
    assert_eq!(parse_u32(" 1"), None);
    assert_eq!(parse_u32("4294967296"), None);
    assert_eq!(parse_u32("99999999999999999999"), None);
}

#[test]
fn parse_pos_reads_pair() {
    assert_eq!(parse_pos("3,4").unwrap(), (3, 4));
    assert_eq!(parse_pos("+10,0").unwrap(), (10, 0));
}

#[test]
fn parse_pos_errors() {
    assert!(matches!(parse_pos("3"), Err(PosError::WrongPartCount)));
    assert!(matches!(parse_pos("1,2,3"), Err(PosError::WrongPartCount)));
    assert!(matches!(parse_pos(""), Err(PosError::WrongPartCount)));
    match parse_pos("a,4") {
        Err(PosError::InvalidX(p)) => assert_eq!(p, "a"),
        other => panic!("{:?}", other),
    }
    match parse_pos("3,b") {
        Err(PosError::InvalidY(p)) => assert_eq!(p, "b"),
        other => panic!("{:?}", other),
    }
    match parse_pos(",5") {
        Err(PosError::InvalidX(p)) => assert_eq!(p, ""),
        other => panic!("{:?}", other),
    }
}

#[test]
fn decimal_text_written() {
    let mut s = String::from("n=");
    push_decimal(&mut s, 0);
    assert_eq!(s, "n=0");
    let mut t = String::new();
    push_decimal(&mut t, 18446744073709551615);
    assert_eq!(t, "18446744073709551615");
}

#[test]
fn filename_is_stem() {
    assert_eq!(get_filename("sheets/items.png"), "items");
    assert_eq!(get_filename("archive.tar.gz"), "archive.tar");
    assert_eq!(get_filename(".hidden"), ".hidden");
    assert_eq!(get_filename(""), "Err");
    assert_eq!(get_filename("/"), "Err");
}

#[test]
fn paths_follow_layout() {
    assert_eq!(output_dir("output", "items"), "output/items");
    assert_eq!(cell_path("output", "items", 12), "output/items/12.png");
    assert_eq!(cell_path("out/x", "a", 0), "out/x/a/0.png");
}

#[test]
fn source_selection() {
    assert!(matches!(select_source(Some("a.png".to_string()), None), Ok(Source::File(p)) if p == "a.png"));
    assert!(matches!(select_source(None, Some("dir".to_string())), Ok(Source::Directory(p)) if p == "dir"));
    assert!(matches!(select_source(Some("a".to_string()), Some("b".to_string())), Err(UsageError::BothGiven)));
    assert!(matches!(select_source(None, None), Err(UsageError::NoneGiven)));
}

#[test]
fn summary_counts_statuses() {
    let s = vec![
        CellStatus::Written,
        CellStatus::Skipped(SkipReason::PastRightEdge),
        CellStatus::WriteFailed,
        CellStatus::Written,
        CellStatus::Skipped(SkipReason::PastBottomEdge),
        CellStatus::WriteFailed,
    ];
    let r = summarize(&s);
    assert_eq!((r.written, r.skipped), (2, 2));
    assert_eq!(r.failed, vec![2, 5]);
    let e = summarize(&Vec::new());
    assert_eq!((e.written, e.skipped, e.failed.len()), (0, 0, 0));
}
