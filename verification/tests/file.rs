use json2cuesheet::domain::aggregates::v1::cue::{
    File, FileError, FileFormatter, FileType, Pregap, PregapType, Time, Track, TrackError,
    TrackFormatter,
};

const TEST_TRACK: [&str; 3] = ["track", "  strings", "  are here"];

struct MockTrack {}

impl TrackFormatter for MockTrack {
    fn cdtext_lines(
        &self,
        _number: usize,
        _indent: bool,
    ) -> Result<vstd::seq::Seq<vstd::seq::Seq<char>>, TrackError> {
        unreachable!()
    }

    fn to_cdtext_strings(&self, number: usize, indent: bool) -> Result<Vec<String>, TrackError> {
        let mut result: Vec<String> = Vec::from([number.to_string()]);
        if indent {
            result.extend(TEST_TRACK.map(|s| format!("  {s}")));
            return Ok(result);
        }
        result.extend(TEST_TRACK.iter().map(|s| String::from(*s)));
        Ok(result)
    }
}

#[test]
fn test_to_cdtext_strings_initial_is_0() -> Result<(), String> {
    let path = String::from("/path/to/file.wav");
    let tracks = vec![MockTrack {}, MockTrack {}];
    let file_type = FileType::Wave;
    let file: File<MockTrack> = File::new(path, tracks, file_type);

    let result = file.to_cdtext_strings(1).map_err(|e| e.message())?;

    let expected = vec![
        "FILE \"/path/to/file.wav\" WAVE",
        "1",
        "  track",
        "    strings",
        "    are here",
        "2",
        "  track",
        "    strings",
        "    are here",
    ];
    assert_eq!(result.texts, expected);
    Ok(())
}

#[test]
fn test_to_cdtext_strings_initial_is_not0() -> Result<(), String> {
    let path = String::from("/path/to/file.wav");
    let tracks = vec![MockTrack {}, MockTrack {}, MockTrack {}];
    let file_type = FileType::Wave;
    let file: File<MockTrack> = File::new(path, tracks, file_type);

    let result = file.to_cdtext_strings(4).map_err(|e| e.message())?;

    let expected = vec![
        "FILE \"/path/to/file.wav\" WAVE",
        "4",
        "  track",
        "    strings",
        "    are here",
        "5",
        "  track",
        "    strings",
        "    are here",
        "6",
        "  track",
        "    strings",
        "    are here",
    ];
    assert_eq!(result.texts, expected);
    assert_eq!(result.track_count, 3);
    Ok(())
}

fn track_starting_at(minute: u8, pregap_minutes: u8) -> Track {
    Track::new(
        String::from("Song"),
        None,
        Pregap {
            pregap_type: PregapType::Included,
            duration: Time::new(pregap_minutes, 0, 0).unwrap(),
        },
        Time::zero(),
        Time::new(minute, 0, 0).unwrap(),
    )
}

#[test]
fn a_file_numbers_its_tracks_from_the_initial_number() {
    let file: File = File::new(
        String::from("disc.wav"),
        vec![
            track_starting_at(0, 0),
            track_starting_at(10, 0),
            track_starting_at(20, 0),
        ],
        FileType::Wave,
    );
    let rendered = file.to_cdtext_strings(4).map_err(|e| e.message()).unwrap();
    assert_eq!(rendered.track_count, 3);
    assert_eq!(
        rendered.texts,
        vec![
            "FILE \"disc.wav\" WAVE",
            "  TRACK 04 AUDIO",
            "    TITLE \"Song\"",
            "    INDEX 01 00:00:00",
            "    POSTGAP 00:00:00",
            "  TRACK 05 AUDIO",
            "    TITLE \"Song\"",
            "    INDEX 01 10:00:00",
            "    POSTGAP 00:00:00",
            "  TRACK 06 AUDIO",
            "    TITLE \"Song\"",
            "    INDEX 01 20:00:00",
            "    POSTGAP 00:00:00",
        ]
    );
}

#[test]
fn a_file_without_tracks_is_its_header() {
    let file: File = File::new(String::from("empty.wav"), Vec::new(), FileType::Wave);
    let rendered = file.to_cdtext_strings(1).map_err(|e| e.message()).unwrap();
    assert_eq!(rendered.texts, vec!["FILE \"empty.wav\" WAVE"]);
    assert_eq!(rendered.track_count, 0);
}

#[test]
fn a_file_reports_the_first_track_that_fails_with_its_number() {
    let file: File = File::new(
        String::from("disc.wav"),
        vec![
            track_starting_at(0, 1),
            track_starting_at(79, 1),
            track_starting_at(79, 2),
        ],
        FileType::Wave,
    );
    let Err(error) = file.to_cdtext_strings(4) else {
        panic!("the second track cannot be rendered");
    };
    assert_eq!(
        error,
        FileError {
            track_number: 5,
            cause: TrackError::TimeOverflow
        }
    );
    assert_eq!(
        error.message(),
        "error at track No.5:\n(start_at + pregap) exceeds range of Time object"
    );
}
