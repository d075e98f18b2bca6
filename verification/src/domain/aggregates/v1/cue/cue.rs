//! A whole album, and the text of its sheet.

use super::file::{file_cdtext, File, FileError, FileFormatter, FileView};
use super::track::TrackFormatter;
use super::info::{Info, InfoFormatter};
use crate::share::util::{join_strings_with_lf, joined_with_lf, lemma_texts_concat, texts};
use vstd::prelude::*;

verus! {

/// An album: what it is called, what kind of music it holds, the people
/// behind it, and its audio files in the order in which they play.
pub struct Cue<F: FileFormatter = File, I: InfoFormatter = Info> {
    pub title: String,
    pub genre: Option<String>,
    pub info: Option<I>,
    pub files: Vec<F>,
}

/// The track numbers that the files use up, all together.
pub open spec fn total_tracks<F: FileFormatter>(files: Seq<F>) -> nat
    decreases files.len(),
{
    if files.len() == 0 {
        0
    } else {
        total_tracks(files.drop_last()) + files.last().track_total()
    }
}

/// The number of the first track of the file that follows `files`: track
/// numbers start at one and run on from file to file.
pub open spec fn next_track_number<F: FileFormatter>(files: Seq<F>) -> nat {
    1 + total_tracks(files)
}

/// The lines of the files one after the other, each file numbering its
/// tracks from where the one before it stopped; or the first failure.
pub open spec fn files_lines<F: FileFormatter>(files: Seq<F>) -> Result<Seq<Seq<char>>, FileError>
    decreases files.len(),
{
    if files.len() == 0 {
        Ok(Seq::empty())
    } else {
        match files_lines(files.drop_last()) {
            Ok(front) => match files.last().cdtext(
                next_track_number(files.drop_last()) as usize,
            ) {
                Ok(rendered) => Ok(front + rendered.texts),
                Err(error) => Err(error),
            },
            Err(error) => Err(error),
        }
    }
}

/// The models of the files, in order.
pub open spec fn views_of<T: TrackFormatter>(files: Seq<File<T>>) -> Seq<FileView<T>> {
    Seq::new(files.len(), |i: int| files[i]@)
}

/// The count of all tracks of an album, given the models of its files.
pub open spec fn album_tracks<T: TrackFormatter>(files: Seq<FileView<T>>) -> nat
    decreases files.len(),
{
    if files.len() == 0 {
        0
    } else {
        album_tracks(files.drop_last()) + files.last().tracks.len()
    }
}

/// The lines of an album, given the models of its files: what
/// [`files_lines`] is of files that are each a [`File`].
pub open spec fn album_lines<T: TrackFormatter>(files: Seq<FileView<T>>) -> Result<
    Seq<Seq<char>>,
    FileError,
>
    decreases files.len(),
{
    if files.len() == 0 {
        Ok(Seq::empty())
    } else {
        match album_lines(files.drop_last()) {
            Ok(front) => match file_cdtext(
                files.last(),
                (1 + album_tracks(files.drop_last())) as usize,
            ) {
                Ok(rendered) => Ok(front + rendered.texts),
                Err(error) => Err(error),
            },
            Err(error) => Err(error),
        }
    }
}

/// Files that are each a [`File`] render as their models say.
pub proof fn lemma_files_lines_of_views<T: TrackFormatter>(files: Seq<File<T>>)
    ensures
        total_tracks(files) == album_tracks(views_of(files)),
        files_lines(files) == album_lines(views_of(files)),
    decreases files.len(),
{
    if files.len() > 0 {
        lemma_files_lines_of_views(files.drop_last());
        assert(views_of(files).drop_last() =~= views_of(files.drop_last()));
    }
}

/// The text of the sheet: the lines of the files, joined by line feeds.
pub open spec fn cue_text<F: FileFormatter, I: InfoFormatter>(cue: Cue<F, I>) -> Result<
    Seq<char>,
    FileError,
> {
    match files_lines(cue.files@) {
        Ok(lines) => Ok(joined_with_lf(lines)),
        Err(error) => Err(error),
    }
}

/// The model of a rendered text, or of the failure to render it.
pub open spec fn viewed_text<E>(result: Result<String, E>) -> Result<Seq<char>, E> {
    match result {
        Ok(text) => Ok(text@),
        Err(error) => Err(error),
    }
}

/// The track numbers used up by the first files are never more than those
/// used up by all of them.
pub proof fn lemma_total_tracks_grows<F: FileFormatter>(files: Seq<F>, upto: int)
    requires
        0 <= upto <= files.len(),
    ensures
        total_tracks(files.take(upto)) <= total_tracks(files),
        upto < files.len() ==> total_tracks(files.take(upto)) + files[upto].track_total()
            <= total_tracks(files),
    decreases files.len() - upto,
{
    if upto < files.len() {
        assert(files.take(upto + 1).drop_last() =~= files.take(upto));
        lemma_total_tracks_grows(files, upto + 1);
    } else {
        assert(files.take(upto) =~= files);
    }
}

/// A failure among the first files is the failure of the whole album.
pub proof fn lemma_files_lines_failure_stays<F: FileFormatter>(files: Seq<F>, upto: int)
    requires
        0 <= upto <= files.len(),
        files_lines(files.take(upto)) is Err,
    ensures
        files_lines(files) == files_lines(files.take(upto)),
    decreases files.len() - upto,
{
    if upto < files.len() {
        assert(files.take(upto + 1).drop_last() =~= files.take(upto));
        lemma_files_lines_failure_stays(files, upto + 1);
    } else {
        assert(files.take(upto) =~= files);
    }
}

/// Numbering never starts over: the first track of a file has the number
/// after the last track of the file before it.
pub proof fn lemma_numbering_runs_on<F: FileFormatter>(files: Seq<F>, position: int)
    requires
        0 <= position < files.len(),
    ensures
        next_track_number(files.take(position + 1)) == next_track_number(files.take(position))
            + files[position].track_total(),
        next_track_number(files.take(0)) == 1,
{
    assert(files.take(position + 1).drop_last() =~= files.take(position));
    assert(files.take(0).len() == 0);
}

impl<T: TrackFormatter, I: InfoFormatter> Cue<File<T>, I> {
    /// Whether the track numbers of the album fit the machine's word, as
    /// [`Cue::to_cdtext_string`] asks.
    pub fn track_numbers_fit(&self) -> (fit: bool)
        ensures
            fit == (next_track_number(self.files@) <= usize::MAX),
    {
        let mut next_number: usize = 1;
        let mut position: usize = 0;
        while position < self.files.len()
            invariant
                position <= self.files.len(),
                next_number == next_track_number(self.files@.take(position as int)),
            decreases self.files.len() - position,
        {
            proof {
                lemma_total_tracks_grows(self.files@, position as int);
                lemma_numbering_runs_on(self.files@, position as int);
            }
            match next_number.checked_add(self.files[position].tracks.len()) {
                Some(sum) => {
                    next_number = sum;
                },
                None => {
                    return false;
                },
            }
            position += 1;
        }
        proof {
            assert(self.files@.take(position as int) =~= self.files@);
        }
        true
    }
}

/// Rendering is a function of the album alone: whatever two renderings of
/// one album return, they return the same.
pub proof fn lemma_rendering_is_repeatable<F: FileFormatter, I: InfoFormatter>(
    cue: Cue<F, I>,
    first: Result<String, FileError>,
    second: Result<String, FileError>,
)
    requires
        viewed_text(first) == cue_text(cue),
        viewed_text(second) == cue_text(cue),
    ensures
        first is Ok <==> second is Ok,
        first is Ok ==> first->Ok_0@ == second->Ok_0@,
        first is Err ==> first->Err_0 == second->Err_0,
{
}

impl<F: FileFormatter, I: InfoFormatter> Cue<F, I> {
    /// The album with these parts.
    pub fn new(title: String, genre: Option<String>, info: Option<I>, files: Vec<F>) -> (cue: Cue<
        F,
        I,
    >)
        ensures
            cue == (Cue { title, genre, info, files }),
    {
        Cue { title, genre, info, files }
    }

    /// The text of the sheet.
    ///
    /// The track numbers have to fit the machine's word.
    pub fn to_cdtext_string(&self) -> (result: Result<String, FileError>)
        requires
            next_track_number(self.files@) <= usize::MAX,
        ensures
            viewed_text(result) == cue_text(*self),
    {
        let mut lines: Vec<String> = Vec::new();
        let mut next_number: usize = 1;
        let mut position: usize = 0;
        assert(texts(lines@) =~= Seq::<Seq<char>>::empty());
        while position < self.files.len()
            invariant
                position <= self.files.len(),
                next_track_number(self.files@) <= usize::MAX,
                next_number == next_track_number(self.files@.take(position as int)),
                files_lines(self.files@.take(position as int)) == Ok::<Seq<Seq<char>>, FileError>(
                    texts(lines@),
                ),
            decreases self.files.len() - position,
        {
            proof {
                lemma_total_tracks_grows(self.files@, position as int);
                lemma_numbering_runs_on(self.files@, position as int);
                assert(self.files@.take(position + 1).drop_last() =~= self.files@.take(
                    position as int,
                ));
            }
            let mut rendered = match self.files[position].to_cdtext_strings(next_number) {
                Ok(rendered) => rendered,
                Err(error) => {
                    proof {
                        lemma_files_lines_failure_stays(self.files@, position + 1);
                    }
                    return Err(error);
                },
            };
            proof {
                lemma_texts_concat(lines@, rendered.texts@);
            }
            lines.append(&mut rendered.texts);
            next_number = next_number + rendered.track_count;
            position += 1;
        }
        proof {
            assert(self.files@.take(position as int) =~= self.files@);
        }
        Ok(join_strings_with_lf(&lines))
    }
}

} // verus!
