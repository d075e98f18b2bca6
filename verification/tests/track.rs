use json2cuesheet::domain::aggregates::v1::cue::{
    Info, InfoFormatter, Pregap, PregapType, Time, Track, TrackError, TrackFormatter,
};

const TEST_INFO: [&str; 2] = ["info1", "info2"];

struct MockInfo {}

impl InfoFormatter for MockInfo {
    fn cdtext_lines(&self, _indent: bool) -> vstd::seq::Seq<vstd::seq::Seq<char>> {
        unreachable!()
    }

    fn to_cdtext_strings(&self, indent: bool) -> Vec<String> {
        let mut result: Vec<String> = Vec::new();
        if indent {
            result.extend(TEST_INFO.map(|s| format!("  {s}")));
            return result;
        }
        result.extend(TEST_INFO.iter().map(|s| String::from(*s)));
        result
    }
}

#[test]
fn test_to_cdtext_strings_pregap_included() -> Result<(), String> {
    let title = String::from("ここにタイトル");
    let info = Some(MockInfo {});
    let pregap = Pregap {
        pregap_type: PregapType::Included,
        duration: Time::from_vec(&vec![0, 2, 15]).map_err(|e| e.message())?,
    };
    let postgap = Time::from_vec(&vec![1, 2, 3]).map_err(|e| e.message())?;
    let start_at = Time::from_vec(&vec![0, 0, 0]).map_err(|e| e.message())?;
    let test_track: Track<Time, MockInfo> = Track {
        title,
        info,
        pregap,
        postgap,
        start_at,
    };

    let result = test_track
        .to_cdtext_strings(1, false)
        .map_err(|e| e.message())?;

    let expected = vec![
        "TRACK 01 AUDIO",
        "  TITLE \"ここにタイトル\"",
        "  info1",
        "  info2",
        "  INDEX 00 00:00:00",
        "  INDEX 01 00:02:15",
        "  POSTGAP 01:02:03",
    ];
    assert_eq!(result, expected);
    Ok(())
}

#[test]
fn test_to_cdtext_strings_pregap_silent() -> Result<(), String> {
    let title = String::from("ここにタイトル");
    let info = Some(MockInfo {});
    let pregap = Pregap {
        pregap_type: PregapType::Silent,
        duration: Time::from_vec(&vec![0, 3, 49]).map_err(|e| e.message())?,
    };
    let postgap = Time::from_vec(&vec![0, 0, 0]).map_err(|e| e.message())?;
    let start_at = Time::from_vec(&vec![0, 0, 0]).map_err(|e| e.message())?;
    let test_track: Track<Time, MockInfo> = Track {
        title,
        info,
        pregap,
        postgap,
        start_at,
    };

    let result = test_track
        .to_cdtext_strings(8, true)
        .map_err(|e| e.message())?;

    let expected = vec![
        "  TRACK 08 AUDIO",
        "    TITLE \"ここにタイトル\"",
        "    info1",
        "    info2",
        "    PREGAP 00:03:49",
        "    INDEX 01 00:00:00",
        "    POSTGAP 00:00:00",
    ];
    assert_eq!(result, expected);
    Ok(())
}

fn plain_track(pregap_type: PregapType, duration: [u8; 3], start_at: [u8; 3]) -> Track {
    Track::new(
        String::from("Song"),
        None,
        Pregap {
            pregap_type,
            duration: Time::from_vec(&duration.to_vec()).unwrap(),
        },
        Time::zero(),
        Time::from_vec(&start_at.to_vec()).unwrap(),
    )
}

#[test]
fn a_gap_of_no_length_leaves_only_the_start() {
    for pregap_type in [PregapType::Silent, PregapType::Included] {
        let track = plain_track(pregap_type, [0, 0, 0], [1, 2, 3]);
        assert_eq!(
            track.to_cdtext_strings(2, false),
            Ok(vec![
                String::from("TRACK 02 AUDIO"),
                String::from("  TITLE \"Song\""),
                String::from("  INDEX 01 01:02:03"),
                String::from("  POSTGAP 00:00:00"),
            ])
        );
    }
}

#[test]
fn an_included_gap_ends_where_the_audio_starts() {
    let track = plain_track(PregapType::Included, [0, 59, 74], [10, 0, 1]);
    assert_eq!(
        track.to_cdtext_strings(12, false),
        Ok(vec![
            String::from("TRACK 12 AUDIO"),
            String::from("  TITLE \"Song\""),
            String::from("  INDEX 00 10:00:01"),
            String::from("  INDEX 01 11:00:00"),
            String::from("  POSTGAP 00:00:00"),
        ])
    );
}

#[test]
fn an_included_gap_beyond_the_last_time_is_an_error() {
    let track = plain_track(PregapType::Included, [40, 0, 0], [40, 0, 0]);
    assert_eq!(
        track.to_cdtext_strings(1, false),
        Err(TrackError::TimeOverflow)
    );
    assert_eq!(
        track.to_cdtext_strings(1, true),
        Err(TrackError::TimeOverflow)
    );
    assert_eq!(
        TrackError::TimeOverflow.message(),
        "(start_at + pregap) exceeds range of Time object"
    );
    // A silent gap of the same length is never added to the start.
    let silent = plain_track(PregapType::Silent, [40, 0, 0], [40, 0, 0]);
    assert!(silent.to_cdtext_strings(1, false).is_ok());
}

#[test]
fn a_track_number_keeps_all_its_digits() {
    let track = plain_track(PregapType::Silent, [0, 0, 0], [0, 0, 0]);
    let lines = track.to_cdtext_strings(123, false).unwrap();
    assert_eq!(lines[0], "TRACK 123 AUDIO");
    let lines = track.to_cdtext_strings(0, true).unwrap();
    assert_eq!(lines[0], "  TRACK 00 AUDIO");
}

#[test]
fn a_track_shows_the_people_behind_it_under_its_title() {
    let track: Track = Track::new(
        String::from("Song"),
        Some(Info::new(
            None,
            Some(String::from("Composer")),
            None,
            Some(String::from("Band")),
        )),
        Pregap {
            pregap_type: PregapType::Silent,
            duration: Time::new(0, 2, 0).unwrap(),
        },
        Time::new(0, 1, 0).unwrap(),
        Time::new(5, 0, 0).unwrap(),
    );
    assert_eq!(
        track.to_cdtext_strings(7, true),
        Ok(vec![
            String::from("  TRACK 07 AUDIO"),
            String::from("    TITLE \"Song\""),
            String::from("    REM COMPOSER \"Composer\""),
            String::from("    PERFORMER \"Band\""),
            String::from("    PREGAP 00:02:00"),
            String::from("    INDEX 01 05:00:00"),
            String::from("    POSTGAP 00:01:00"),
        ])
    );
}
