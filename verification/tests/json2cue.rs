use json2cuesheet::domain::aggregates::v1::cue::{FileError, TimeError, TimeField, TrackError};
use json2cuesheet::domain::aggregates::v1::json::{File, Info, Json, Pregap, Track};
use json2cuesheet::domain::services::v1::{BuildError, Json2CueV1, TimePart, TrackBuildError};

fn bare_track(title: &str) -> Track {
    Track {
        title: String::from(title),
        info: None,
        pregap: None,
        postgap: None,
        start_at: None,
    }
}

fn wave(path: &str, tracks: Vec<Track>) -> File {
    File {
        path: String::from(path),
        tracks,
        file_type: String::from("WAVE"),
    }
}

fn document(files: Vec<File>) -> Json {
    Json {
        version: 1,
        title: String::from("Album"),
        genre: Some(String::from("Classical")),
        info: Some(Info {
            arranger: None,
            composer: None,
            lyricist: None,
            performer: Some(String::from("Band")),
        }),
        files,
    }
}

fn album() -> Json {
    document(vec![
        wave(
            "/music/a.wav",
            vec![
                Track {
                    title: String::from("One"),
                    info: Some(Info {
                        arranger: Some(String::from("Arr")),
                        composer: None,
                        lyricist: None,
                        performer: Some(String::from("Solo")),
                    }),
                    pregap: None,
                    postgap: None,
                    start_at: None,
                },
                Track {
                    title: String::from("Two"),
                    info: None,
                    pregap: Some(Pregap {
                        duration: vec![0, 2, 0],
                        pregap_type: String::from("silent"),
                    }),
                    postgap: Some(vec![0, 1, 0]),
                    start_at: Some(vec![3, 0, 0]),
                },
            ],
        ),
        wave(
            "/music/b.wav",
            vec![Track {
                title: String::from("Three"),
                info: None,
                pregap: Some(Pregap {
                    duration: vec![0, 2, 15],
                    pregap_type: String::from("included"),
                }),
                postgap: None,
                start_at: Some(vec![0, 0, 0]),
            }],
        ),
    ])
}

fn album_text(first_path: &str, second_path: &str) -> String {
    [
        format!("FILE \"{}\" WAVE", first_path).as_str(),
        "  TRACK 01 AUDIO",
        "    TITLE \"One\"",
        "    REM ARRANGER \"Arr\"",
        "    PERFORMER \"Solo\"",
        "    INDEX 01 00:00:00",
        "    POSTGAP 00:00:00",
        "  TRACK 02 AUDIO",
        "    TITLE \"Two\"",
        "    PREGAP 00:02:00",
        "    INDEX 01 03:00:00",
        "    POSTGAP 00:01:00",
        format!("FILE \"{}\" WAVE", second_path).as_str(),
        "  TRACK 03 AUDIO",
        "    TITLE \"Three\"",
        "    INDEX 00 00:00:00",
        "    INDEX 01 00:02:15",
        "    POSTGAP 00:00:00",
    ]
    .join("\n")
}

#[test]
fn only_version_one_is_parsable() {
    assert!(Json2CueV1::is_parsable_version(1));
    assert!(!Json2CueV1::is_parsable_version(0));
    assert!(!Json2CueV1::is_parsable_version(2));
    assert!(!Json2CueV1::is_parsable_version(255));
}

#[test]
fn build_with_paths_renders_the_whole_album() {
    let service = Json2CueV1::new(album());
    let paths = vec![
        Some(String::from("/abs/a.wav")),
        Some(String::from("/abs/b.wav")),
    ];
    assert_eq!(
        service.build_with_paths(&paths),
        Ok(album_text("/abs/a.wav", "/abs/b.wav"))
    );
}

#[test]
fn build_keeps_a_path_that_is_absolute_already() {
    let service = Json2CueV1::new(album());
    assert_eq!(
        service.build(),
        Ok(album_text("/music/a.wav", "/music/b.wav"))
    );
}

#[test]
fn build_makes_a_relative_path_absolute() {
    let service = Json2CueV1::new(document(vec![wave(
        "relative.wav",
        vec![bare_track("One")],
    )]));
    let text = service.build().map_err(|e| e.message()).unwrap();
    let header = text.lines().next().unwrap();
    assert_ne!(header, "FILE \"relative.wav\" WAVE");
    assert!(header.starts_with("FILE \""));
    assert!(header.ends_with("relative.wav\" WAVE"));
    let path = &header["FILE \"".len()..header.len() - "\" WAVE".len()];
    assert!(std::path::Path::new(path).is_absolute());
}

#[test]
fn build_refuses_another_version_and_names_it() {
    let mut json = album();
    json.version = 2;
    let Err(error) = Json2CueV1::new(json).build() else {
        panic!("version 2 is not supported");
    };
    assert_eq!(error, BuildError::VersionMismatch { version: 2 });
    assert_eq!(error.message(), "incompatible version: 2");

    let mut json = album();
    json.version = 0;
    // The version is looked at before anything else.
    json.files[0].file_type = String::from("MP3");
    let Err(error) = Json2CueV1::new(json).build() else {
        panic!("version 0 is not supported");
    };
    assert_eq!(error.message(), "incompatible version: 0");
}

#[test]
fn build_refuses_an_unknown_pregap_type_and_names_it() {
    let mut json = album();
    json.files[1].tracks[0].pregap = Some(Pregap {
        duration: vec![0, 2, 15],
        pregap_type: String::from("unknown"),
    });
    let Err(error) = Json2CueV1::new(json).build() else {
        panic!("the type of the gap is unknown");
    };
    assert_eq!(
        error,
        BuildError::Tracks {
            index: 1,
            cause: TrackBuildError::UnknownPregapType {
                index: 0,
                value: String::from("unknown")
            }
        }
    );
    assert_eq!(
        error.message(),
        "tracks are not parsable in index=1\nunknown pregap_type in index=0: unknown"
    );
}

#[test]
fn the_type_of_a_gap_is_read_before_its_duration() {
    let mut json = album();
    json.files[0].tracks[1].pregap = Some(Pregap {
        duration: vec![0, 90],
        pregap_type: String::from("Silent"),
    });
    let Err(error) = Json2CueV1::new(json).build() else {
        panic!("the type of the gap is unknown");
    };
    assert_eq!(
        error.message(),
        "tracks are not parsable in index=0\nunknown pregap_type in index=1: Silent"
    );
}

#[test]
fn build_refuses_an_unknown_file_type_and_shows_the_path() {
    let mut json = album();
    json.files[1].file_type = String::from("MP3");
    json.files[1].path = String::from("/music/b c.mp3");
    let Err(error) = Json2CueV1::new(json).build() else {
        panic!("the type of the file is unknown");
    };
    assert_eq!(
        error,
        BuildError::UnknownFileType {
            file_type: String::from("MP3"),
            index: 1,
            path: String::from("/music/b c.mp3")
        }
    );
    assert_eq!(
        error.message(),
        "file type MP3 is unknown in index 1(path=\"/music/b c.mp3\")"
    );
    assert_eq!(
        error.message_with("<path>"),
        "file type MP3 is unknown in index 1(path=<path>)"
    );
}

#[test]
fn the_type_of_a_file_is_case_sensitive() {
    let mut json = album();
    json.files[0].file_type = String::from("wave");
    let Err(error) = Json2CueV1::new(json).build() else {
        panic!("the type of the file is unknown");
    };
    assert_eq!(
        error.message(),
        "file type wave is unknown in index 0(path=\"/music/a.wav\")"
    );
}

#[test]
fn build_refuses_a_path_that_cannot_be_made_absolute() {
    let mut json = album();
    json.files[0].path = String::new();
    let Err(error) = Json2CueV1::new(json).build() else {
        panic!("an empty path has no absolute form");
    };
    assert_eq!(
        error,
        BuildError::PathResolution {
            path: String::new()
        }
    );
    assert_eq!(error.message(), "file path(\"\") is not parsable");
}

#[test]
fn build_with_paths_refuses_a_path_that_was_not_found() {
    let service = Json2CueV1::new(album());
    let paths = vec![Some(String::from("/abs/a.wav")), None];
    let Err(error) = service.build_with_paths(&paths) else {
        panic!("the second path was not found");
    };
    assert_eq!(
        error.message(),
        "file path(\"/music/b.wav\") is not parsable"
    );
}

#[test]
fn the_debug_text_of_a_path_escapes_quotes() {
    let error = BuildError::PathResolution {
        path: String::from("a\"b"),
    };
    assert_eq!(error.message(), "file path(\"a\\\"b\") is not parsable");
}

#[test]
fn build_refuses_times_of_the_wrong_length() {
    let mut json = album();
    json.files[1].tracks[0].postgap = Some(vec![1, 2]);
    let Err(error) = Json2CueV1::new(json).build() else {
        panic!("the gap after the track has two numbers");
    };
    assert_eq!(
        error,
        BuildError::Tracks {
            index: 1,
            cause: TrackBuildError::Time {
                index: 0,
                part: TimePart::Postgap,
                numbers: vec![1, 2],
                cause: TimeError::Length
            }
        }
    );
    assert_eq!(
        error.message(),
        "tracks are not parsable in index=1\npostgap in index=0 is not parsable: [1, 2]\nlength of time_vec must be 3"
    );
}

#[test]
fn build_refuses_times_out_of_range() {
    let mut json = album();
    json.files[0].tracks[1].pregap = Some(Pregap {
        duration: vec![0, 90, 0],
        pregap_type: String::from("included"),
    });
    let Err(error) = Json2CueV1::new(json).build() else {
        panic!("ninety seconds are out of range");
    };
    assert_eq!(
        error.message(),
        "tracks are not parsable in index=0\npregap in index=1 is not parsable: [0, 90, 0]\nsecond must be >=0 and <60"
    );

    let mut json = album();
    json.files[0].tracks[0].start_at = Some(vec![80, 0, 0]);
    let Err(error) = Json2CueV1::new(json).build() else {
        panic!("eighty minutes are out of range");
    };
    assert_eq!(
        error,
        BuildError::Tracks {
            index: 0,
            cause: TrackBuildError::Time {
                index: 0,
                part: TimePart::StartAt,
                numbers: vec![80, 0, 0],
                cause: TimeError::Range(TimeField::Minute)
            }
        }
    );
    assert_eq!(
        error.message(),
        "tracks are not parsable in index=0\nstart_at in index=0 is not parsable: [80, 0, 0]\nminute must be >=0 and <80"
    );
}

#[test]
fn an_empty_list_of_numbers_is_shown_as_empty_brackets() {
    let error = TrackBuildError::Time {
        index: 10,
        part: TimePart::Pregap,
        numbers: Vec::new(),
        cause: TimeError::Length,
    };
    assert_eq!(
        error.message(),
        "pregap in index=10 is not parsable: []\nlength of time_vec must be 3"
    );
    let error = TrackBuildError::Time {
        index: 0,
        part: TimePart::Postgap,
        numbers: vec![255],
        cause: TimeError::Length,
    };
    assert_eq!(
        error.message(),
        "postgap in index=0 is not parsable: [255]\nlength of time_vec must be 3"
    );
}

#[test]
fn the_gap_before_a_track_is_read_before_the_other_times() {
    let mut json = album();
    json.files[0].tracks[0].pregap = Some(Pregap {
        duration: vec![0, 0, 75],
        pregap_type: String::from("silent"),
    });
    json.files[0].tracks[0].postgap = Some(vec![]);
    json.files[0].tracks[0].start_at = Some(vec![]);
    let Err(error) = Json2CueV1::new(json).build() else {
        panic!("no time of the track can be read");
    };
    assert_eq!(
        error.message(),
        "tracks are not parsable in index=0\npregap in index=0 is not parsable: [0, 0, 75]\nframe must be >=0 and <75"
    );
}

#[test]
fn build_reports_a_track_that_cannot_be_rendered() {
    let mut json = album();
    json.files[1].tracks[0].pregap = Some(Pregap {
        duration: vec![40, 0, 0],
        pregap_type: String::from("included"),
    });
    json.files[1].tracks[0].start_at = Some(vec![40, 0, 0]);
    let Err(error) = Json2CueV1::new(json).build() else {
        panic!("the audio would start beyond the last time");
    };
    assert_eq!(
        error,
        BuildError::Render(FileError {
            track_number: 3,
            cause: TrackError::TimeOverflow
        })
    );
    assert_eq!(
        error.message(),
        "error at track No.3:\n(start_at + pregap) exceeds range of Time object"
    );
}

#[test]
fn a_document_without_files_builds_an_empty_text() {
    assert_eq!(
        Json2CueV1::new(document(Vec::new())).build(),
        Ok(String::new())
    );
}

#[test]
fn building_twice_gives_the_same_text() {
    let service = Json2CueV1::new(album());
    assert_eq!(service.build(), service.build());
}

#[test]
fn the_track_numbers_of_an_album_fit() {
    assert!(Json2CueV1::new(album()).track_numbers_fit());
    assert!(Json2CueV1::new(document(Vec::new())).track_numbers_fit());
}
