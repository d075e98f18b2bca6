//! One audio file of an album, and the lines it contributes to a sheet.

use super::file_type::FileType;
use super::track::{Track, TrackError, TrackFormatter};
use crate::share::text::{decimal_string, decimal_text, quoted_entry, quoted_entry_string};
use crate::share::util::{lemma_texts_concat, texts};
use vstd::prelude::*;

verus! {

/// A track of a file could not be rendered.
#[derive(Debug, Clone, Copy, PartialEq, Eq, Structural)]
pub struct FileError {
    /// The number that the track has on the sheet.
    pub track_number: usize,
    /// What went wrong in that track.
    pub cause: TrackError,
}

/// The lines of a file and the count of track numbers it used up.
pub struct FileCdtextResult {
    pub texts: Vec<String>,
    pub track_count: usize,
}

/// The mathematical model of a [`FileCdtextResult`].
pub struct FileCdtext {
    pub texts: Seq<Seq<char>>,
    pub track_count: usize,
}

/// What renders itself as the lines of a file, numbering its tracks from a
/// number that the caller hands in.
///
/// The two spec functions name what `to_cdtext_strings` returns and how
/// many numbers it uses up. A type that implements the trait outside
/// verified code owes what the contract says.
pub trait FileFormatter {
    /// How many track numbers the file uses up.
    spec fn track_total(&self) -> nat;

    /// What `to_cdtext_strings` returns.
    spec fn cdtext(&self, initial_number: usize) -> Result<FileCdtext, FileError>;

    fn to_cdtext_strings(&self, initial_number: usize) -> (result: Result<
        FileCdtextResult,
        FileError,
    >)
        requires
            initial_number + self.track_total() <= usize::MAX,
        ensures
            viewed_cdtext(result) == self.cdtext(initial_number),
            result matches Ok(rendered) ==> rendered.track_count == self.track_total(),
    ;
}

/// An audio file with its tracks in the order in which they play.
pub struct File<T: TrackFormatter = Track> {
    pub path: String,
    pub tracks: Vec<T>,
    pub file_type: FileType,
}

/// The mathematical model of a [`File`]: the text of its path and the
/// sequence of its tracks.
pub struct FileView<T> {
    pub path: Seq<char>,
    pub tracks: Seq<T>,
    pub file_type: FileType,
}

impl<T: TrackFormatter> View for File<T> {
    type V = FileView<T>;

    open spec fn view(&self) -> FileView<T> {
        FileView { path: self.path@, tracks: self.tracks@, file_type: self.file_type }
    }
}

impl View for FileCdtextResult {
    type V = FileCdtext;

    open spec fn view(&self) -> FileCdtext {
        FileCdtext { texts: texts(self.texts@), track_count: self.track_count }
    }
}

/// The model of what rendering a file returns.
pub open spec fn viewed_cdtext(result: Result<FileCdtextResult, FileError>) -> Result<
    FileCdtext,
    FileError,
> {
    match result {
        Ok(rendered) => Ok(rendered@),
        Err(error) => Err(error),
    }
}

/// `FILE "path" WAVE`.
pub open spec fn file_header(path: Seq<char>) -> Seq<char> {
    quoted_entry("FILE"@, path) + " WAVE"@
}

/// The lines of the tracks, each one level deep, where the track at
/// position `i` has the number `initial_number + i`; or the first track, in
/// order, that cannot be rendered, with its number.
pub open spec fn tracks_lines<T: TrackFormatter>(tracks: Seq<T>, initial_number: usize) -> Result<
    Seq<Seq<char>>,
    FileError,
>
    decreases tracks.len(),
{
    if tracks.len() == 0 {
        Ok(Seq::empty())
    } else {
        match tracks_lines(tracks.drop_last(), initial_number) {
            Ok(front) => {
                let track_number = (initial_number + tracks.len() - 1) as usize;
                match tracks.last().cdtext_lines(track_number, true) {
                    Ok(lines) => Ok(front + lines),
                    Err(cause) => Err(FileError { track_number, cause }),
                }
            },
            Err(error) => Err(error),
        }
    }
}

/// The header of the file followed by the lines of its tracks, and the
/// count of the tracks.
pub open spec fn file_cdtext<T: TrackFormatter>(
    file: FileView<T>,
    initial_number: usize,
) -> Result<FileCdtext, FileError> {
    match tracks_lines(file.tracks, initial_number) {
        Ok(lines) => Ok(
            FileCdtext {
                texts: seq![file_header(file.path)] + lines,
                track_count: file.tracks.len() as usize,
            },
        ),
        Err(error) => Err(error),
    }
}

/// A failure among the first tracks is the failure of the whole list.
pub proof fn lemma_tracks_lines_failure_stays<T: TrackFormatter>(
    tracks: Seq<T>,
    initial_number: usize,
    upto: int,
)
    requires
        0 <= upto <= tracks.len(),
        tracks_lines(tracks.take(upto), initial_number) is Err,
    ensures
        tracks_lines(tracks, initial_number) == tracks_lines(tracks.take(upto), initial_number),
    decreases tracks.len() - upto,
{
    if upto < tracks.len() {
        assert(tracks.take(upto + 1).drop_last() =~= tracks.take(upto));
        lemma_tracks_lines_failure_stays(tracks, initial_number, upto + 1);
    } else {
        assert(tracks.take(upto) =~= tracks);
    }
}

impl FileError {
    /// The message of this error: the track's number, and under it the
    /// message of what went wrong there.
    pub open spec fn text(self) -> Seq<char> {
        "error at track No."@ + decimal_text(self.track_number as nat) + ":\n"@ + self.cause.text()
    }

    /// The message of this error, for a person to read.
    pub fn message(&self) -> (message: String)
        ensures
            message@ == self.text(),
    {
        let mut message = String::from_str("error at track No.");
        message.append(decimal_string(self.track_number).as_str());
        message.append(":\n");
        message.append(self.cause.message().as_str());
        message
    }
}

impl<T: TrackFormatter> File<T> {
    /// The file at `path` with these tracks.
    pub fn new(path: String, tracks: Vec<T>, file_type: FileType) -> (file: File<T>)
        ensures
            file == (File { path, tracks, file_type }),
    {
        File { path, tracks, file_type }
    }
}

impl<T: TrackFormatter> FileFormatter for File<T> {
    open spec fn track_total(&self) -> nat {
        self.tracks@.len()
    }

    open spec fn cdtext(&self, initial_number: usize) -> Result<FileCdtext, FileError> {
        file_cdtext(self@, initial_number)
    }

    fn to_cdtext_strings(&self, initial_number: usize) -> (result: Result<
        FileCdtextResult,
        FileError,
    >) {
        let mut lines: Vec<String> = Vec::new();
        match self.file_type {
            FileType::Wave => {},
        }
        let mut header = quoted_entry_string("FILE", self.path.as_str());
        header.append(" WAVE");
        lines.push(header);
        assert(texts(lines@) =~= seq![file_header(self.path@)]);
        // Every track is rendered one level deeper than the file.
        let mut track_count: usize = 0;
        while track_count < self.tracks.len()
            invariant
                track_count <= self.tracks.len(),
                initial_number + self.tracks.len() <= usize::MAX,
                tracks_lines(self.tracks@.take(track_count as int), initial_number) matches Ok(
                    rendered,
                ) && texts(lines@) == seq![file_header(self.path@)] + rendered,
            decreases self.tracks.len() - track_count,
        {
            let track_number = initial_number + track_count;
            proof {
                assert(self.tracks@.take(track_count + 1).drop_last() =~= self.tracks@.take(
                    track_count as int,
                ));
            }
            let mut track_strings = match self.tracks[track_count].to_cdtext_strings(
                track_number,
                true,
            ) {
                Ok(track_strings) => track_strings,
                Err(cause) => {
                    proof {
                        lemma_tracks_lines_failure_stays(
                            self.tracks@,
                            initial_number,
                            track_count + 1,
                        );
                    }
                    return Err(FileError { track_number, cause });
                },
            };
            proof {
                lemma_texts_concat(lines@, track_strings@);
                let rendered = tracks_lines(
                    self.tracks@.take(track_count as int),
                    initial_number,
                )->Ok_0;
                assert(seq![file_header(self.path@)] + rendered + texts(track_strings@) =~= seq![
                    file_header(self.path@),
                ] + (rendered + texts(track_strings@)));
            }
            lines.append(&mut track_strings);
            track_count += 1;
        }
        proof {
            assert(self.tracks@.take(track_count as int) =~= self.tracks@);
        }
        Ok(FileCdtextResult { texts: lines, track_count })
    }
}

} // verus!
