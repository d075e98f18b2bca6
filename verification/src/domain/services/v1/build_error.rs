//! Why a document could not be turned into a sheet.

use super::path::{path_debug_string, path_debug_text};
use crate::domain::aggregates::v1::cue::file::FileError;
use crate::domain::aggregates::v1::cue::time::TimeError;
use crate::share::text::{decimal_string, decimal_text};
use vstd::prelude::*;

verus! {

/// The three times of a track in the document.
#[derive(Debug, Clone, Copy, PartialEq, Eq, Structural)]
pub enum TimePart {
    Pregap,
    Postgap,
    StartAt,
}

/// Why a track of the document could not be read.
#[derive(Debug, PartialEq, Eq)]
pub enum TrackBuildError {
    /// The kind of the gap before the track is none of the known ones.
    UnknownPregapType { index: usize, value: String },
    /// One of the track's times is no time.
    Time { index: usize, part: TimePart, numbers: Vec<u8>, cause: TimeError },
}

/// The mathematical model of a [`TrackBuildError`].
pub enum TrackBuildFailure {
    UnknownPregapType { index: usize, value: Seq<char> },
    Time { index: usize, part: TimePart, numbers: Seq<u8>, cause: TimeError },
}

/// Why a document could not be turned into a sheet.
#[derive(Debug, PartialEq, Eq)]
pub enum BuildError {
    /// The document is of a version that this service does not read.
    VersionMismatch { version: u8 },
    /// The kind of a file is none of the known ones.
    UnknownFileType { file_type: String, index: usize, path: String },
    /// The path of a file has no absolute form.
    PathResolution { path: String },
    /// A track of the file at `index` could not be read.
    Tracks { index: usize, cause: TrackBuildError },
    /// The album was read, but its sheet could not be rendered.
    Render(FileError),
}

/// The mathematical model of a [`BuildError`].
pub enum BuildFailure {
    VersionMismatch { version: u8 },
    UnknownFileType { file_type: Seq<char>, index: usize, path: Seq<char> },
    PathResolution { path: Seq<char> },
    Tracks { index: usize, cause: TrackBuildFailure },
    Render(FileError),
}

/// The name under which the document holds a time.
pub open spec fn part_name(part: TimePart) -> Seq<char> {
    match part {
        TimePart::Pregap => "pregap"@,
        TimePart::Postgap => "postgap"@,
        TimePart::StartAt => "start_at"@,
    }
}

/// The numbers in decimal, separated by a comma and a space.
pub open spec fn listed_numbers(numbers: Seq<u8>) -> Seq<char>
    decreases numbers.len(),
{
    if numbers.len() == 0 {
        Seq::empty()
    } else if numbers.len() == 1 {
        decimal_text(numbers[0] as nat)
    } else {
        listed_numbers(numbers.drop_last()) + ", "@ + decimal_text(numbers.last() as nat)
    }
}

/// The numbers as a list in square brackets, as `{:?}` prints a vector of them.
pub open spec fn bracketed_numbers(numbers: Seq<u8>) -> Seq<char> {
    "["@ + listed_numbers(numbers) + "]"@
}

impl TrackBuildFailure {
    /// The message of this failure.
    pub open spec fn text(self) -> Seq<char> {
        match self {
            TrackBuildFailure::UnknownPregapType { index, value } => "unknown pregap_type in index="@
                + decimal_text(index as nat) + ": "@ + value,
            TrackBuildFailure::Time { index, part, numbers, cause } => part_name(part)
                + " in index="@ + decimal_text(index as nat) + " is not parsable: "@
                + bracketed_numbers(numbers) + "\n"@ + cause.text(),
        }
    }
}

impl BuildFailure {
    /// The message of this failure, where `shown_path` is the text in which
    /// the failure's path is shown.
    pub open spec fn text_with(self, shown_path: Seq<char>) -> Seq<char> {
        match self {
            BuildFailure::VersionMismatch { version } => "incompatible version: "@ + decimal_text(
                version as nat,
            ),
            BuildFailure::UnknownFileType { file_type, index, path } => "file type "@ + file_type
                + " is unknown in index "@ + decimal_text(index as nat) + "(path="@ + shown_path
                + ")"@,
            BuildFailure::PathResolution { path } => "file path("@ + shown_path
                + ") is not parsable"@,
            BuildFailure::Tracks { index, cause } => "tracks are not parsable in index="@
                + decimal_text(index as nat) + "\n"@ + cause.text(),
            BuildFailure::Render(error) => error.text(),
        }
    }

    /// The path that the failure speaks of; empty where it speaks of none.
    pub open spec fn path(self) -> Seq<char> {
        match self {
            BuildFailure::UnknownFileType { file_type, index, path } => path,
            BuildFailure::PathResolution { path } => path,
            _ => Seq::empty(),
        }
    }

    /// The message of this failure.
    pub open spec fn text(self) -> Seq<char> {
        self.text_with(path_debug_text(self.path()))
    }
}

impl View for TrackBuildError {
    type V = TrackBuildFailure;

    open spec fn view(&self) -> TrackBuildFailure {
        match *self {
            TrackBuildError::UnknownPregapType { index, value } => {
                TrackBuildFailure::UnknownPregapType { index, value: value@ }
            },
            TrackBuildError::Time { index, part, numbers, cause } => TrackBuildFailure::Time {
                index,
                part,
                numbers: numbers@,
                cause,
            },
        }
    }
}

impl View for BuildError {
    type V = BuildFailure;

    open spec fn view(&self) -> BuildFailure {
        match *self {
            BuildError::VersionMismatch { version } => BuildFailure::VersionMismatch { version },
            BuildError::UnknownFileType { file_type, index, path } => {
                BuildFailure::UnknownFileType { file_type: file_type@, index, path: path@ }
            },
            BuildError::PathResolution { path } => BuildFailure::PathResolution { path: path@ },
            BuildError::Tracks { index, cause } => BuildFailure::Tracks { index, cause: cause@ },
            BuildError::Render(error) => BuildFailure::Render(error),
        }
    }
}

/// The numbers as a list in square brackets.
pub fn bracketed_numbers_string(numbers: &Vec<u8>) -> (text: String)
    ensures
        text@ == bracketed_numbers(numbers@),
{
    let mut listed = String::new();
    let mut i: usize = 0;
    while i < numbers.len()
        invariant
            i <= numbers.len(),
            listed@ == listed_numbers(numbers@.take(i as int)),
        decreases numbers.len() - i,
    {
        proof {
            assert(numbers@.take(i + 1).drop_last() =~= numbers@.take(i as int));
        }
        if i > 0 {
            listed.append(", ");
        } else {
            assert(listed@ =~= Seq::<char>::empty()) by {
                assert(numbers@.take(0).len() == 0);
            }
            assert(Seq::<char>::empty() + decimal_text(numbers[0] as nat) =~= decimal_text(
                numbers[0] as nat,
            ));
        }
        listed.append(decimal_string(numbers[i] as usize).as_str());
        i += 1;
    }
    proof {
        assert(numbers@.take(i as int) =~= numbers@);
    }
    let mut text = String::from_str("[");
    text.append(listed.as_str());
    text.append("]");
    text
}

impl TrackBuildError {
    /// The message of this error, for a person to read.
    pub fn message(&self) -> (message: String)
        ensures
            message@ == self@.text(),
    {
        match self {
            TrackBuildError::UnknownPregapType { index, value } => {
                let mut message = String::from_str("unknown pregap_type in index=");
                message.append(decimal_string(*index).as_str());
                message.append(": ");
                message.append(value.as_str());
                message
            },
            TrackBuildError::Time { index, part, numbers, cause } => {
                let name = match part {
                    TimePart::Pregap => "pregap",
                    TimePart::Postgap => "postgap",
                    TimePart::StartAt => "start_at",
                };
                let mut message = String::from_str(name);
                message.append(" in index=");
                message.append(decimal_string(*index).as_str());
                message.append(" is not parsable: ");
                message.append(bracketed_numbers_string(numbers).as_str());
                message.append("\n");
                message.append(cause.message().as_str());
                message
            },
        }
    }
}

impl BuildError {
    /// The message of this error, given the text in which its path is shown.
    pub fn message_with(&self, shown_path: &str) -> (message: String)
        ensures
            message@ == self@.text_with(shown_path@),
    {
        match self {
            BuildError::VersionMismatch { version } => {
                let mut message = String::from_str("incompatible version: ");
                message.append(decimal_string(*version as usize).as_str());
                message
            },
            BuildError::UnknownFileType { file_type, index, path } => {
                let mut message = String::from_str("file type ");
                message.append(file_type.as_str());
                message.append(" is unknown in index ");
                message.append(decimal_string(*index).as_str());
                message.append("(path=");
                message.append(shown_path);
                message.append(")");
                message
            },
            BuildError::PathResolution { path } => {
                let mut message = String::from_str("file path(");
                message.append(shown_path);
                message.append(") is not parsable");
                message
            },
            BuildError::Tracks { index, cause } => {
                let mut message = String::from_str("tracks are not parsable in index=");
                message.append(decimal_string(*index).as_str());
                message.append("\n");
                message.append(cause.message().as_str());
                message
            },
            BuildError::Render(error) => error.message(),
        }
    }

    /// The message of this error, for a person to read.
    pub fn message(&self) -> (message: String)
        ensures
            message@ == self@.text(),
    {
        match self {
            BuildError::UnknownFileType { file_type, index, path } => {
                let shown = path_debug_string(path);
                self.message_with(shown.as_str())
            },
            BuildError::PathResolution { path } => {
                let shown = path_debug_string(path);
                self.message_with(shown.as_str())
            },
            _ => self.message_with(""),
        }
    }
}

} // verus!
