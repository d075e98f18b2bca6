use json2cuesheet::domain::aggregates::v1::cue::{Info, InfoFormatter};

#[test]
fn test_new() -> Result<(), String> {
    let result = Info::new(
        Some(String::from("arr")),
        None,
        Some(String::from("lyric")),
        None,
    );

    let Some(arranger) = result.arranger else {
        return Err(String::new());
    };
    match result.performer {
        Some(_) => {
            return Err(String::new());
        }
        None => {}
    }
    assert_eq!(arranger, String::from("arr"));
    Ok(())
}

#[test]
fn test_to_cdtext_strings_full() {
    let test_info = Info::new(
        Some(String::from("arr")),
        Some(String::from("comp")),
        Some(String::from("lyric")),
        Some(String::from("perf")),
    );

    let result = test_info.to_cdtext_strings(true);

    assert_eq!(
        result.join("\n"),
        String::from(
            "  REM ARRANGER \"arr\"\n  REM COMPOSER \"comp\"\n  REM LYRICIST \"lyric\"\n  PERFORMER \"perf\""
        )
    );
}

#[test]
fn test_to_cdtext_strings_partial() {
    let test_info = Info::new(
        None,
        Some(String::from("Talich Helfen")),
        None,
        Some(String::from("わたかん")),
    );

    let result = test_info.to_cdtext_strings(false);

    assert_eq!(
        result.join(","),
        String::from("REM COMPOSER \"Talich Helfen\",PERFORMER \"わたかん\"")
    );
}

#[test]
fn test_to_cdtext_strings_empty() {
    let test_info = Info::new(None, None, None, None);

    let result = test_info.to_cdtext_strings(true);

    assert_eq!(result.join(""), String::new());
}

#[test]
fn full_info_gives_four_lines_in_the_fixed_order() {
    let info = Info::new(
        Some(String::from("a")),
        Some(String::from("c")),
        Some(String::from("l")),
        Some(String::from("p")),
    );
    assert_eq!(
        info.to_cdtext_strings(true),
        vec![
            "  REM ARRANGER \"a\"",
            "  REM COMPOSER \"c\"",
            "  REM LYRICIST \"l\"",
            "  PERFORMER \"p\"",
        ]
    );
    assert_eq!(
        info.to_cdtext_strings(false),
        vec![
            "REM ARRANGER \"a\"",
            "REM COMPOSER \"c\"",
            "REM LYRICIST \"l\"",
            "PERFORMER \"p\"",
        ]
    );
}

#[test]
fn empty_info_gives_no_line() {
    let info = Info::new(None, None, None, None);
    assert!(info.to_cdtext_strings(true).is_empty());
    assert!(info.to_cdtext_strings(false).is_empty());
}
