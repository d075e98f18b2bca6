//! The service that reads a document and renders the sheet of its album.

use super::build_error::{BuildError, BuildFailure, TimePart, TrackBuildError, TrackBuildFailure};
use super::path::absolute_path;
use crate::domain::aggregates::v1::cue::cue::{
    album_lines, album_tracks, lemma_files_lines_of_views, views_of, Cue,
};
use crate::domain::aggregates::v1::cue::file::{File as CueFile, FileView};
use crate::domain::aggregates::v1::cue::file_type::FileType as CueFileType;
use crate::domain::aggregates::v1::cue::info::Info as CueInfo;
use crate::domain::aggregates::v1::cue::pregap::Pregap as CuePregap;
use crate::domain::aggregates::v1::cue::pregap_type::PregapType as CuePregapType;
use crate::domain::aggregates::v1::cue::time::{msf_of_sequence, Msf, Time as CueTime};
use crate::domain::aggregates::v1::cue::track::Track as CueTrack;
use crate::domain::aggregates::v1::json::{
    File as JsonFile, Info as JsonInfo, Json, Pregap as JsonPregap, Track as JsonTrack,
};
use crate::share::text::decimal_text;
use crate::share::util::joined_with_lf;
use vstd::prelude::*;

verus! {

/// The one version of the document that this service reads.
pub const VERSION: u8 = 1;

/// Turns a document into the text of a sheet.
pub struct Json2CueV1 {
    json: Json,
}

/// The people of the document as the people of the sheet.
pub open spec fn mapped_info(info: JsonInfo) -> CueInfo {
    CueInfo {
        arranger: info.arranger,
        composer: info.composer,
        lyricist: info.lyricist,
        performer: info.performer,
    }
}

/// The people of the document, where it names any.
pub open spec fn mapped_optional_info(info: Option<JsonInfo>) -> Option<CueInfo> {
    match info {
        Some(info) => Some(mapped_info(info)),
        None => None,
    }
}

/// The kind of gap that a word of the document stands for.
pub open spec fn pregap_type_of(word: Seq<char>) -> Option<CuePregapType> {
    if word == "included"@ {
        Some(CuePregapType::Included)
    } else if word == "silent"@ {
        Some(CuePregapType::Silent)
    } else {
        None
    }
}

/// The time of no length.
pub open spec fn zero_msf() -> Msf {
    Msf { minute: 0, second: 0, frame: 0 }
}

/// The time that the numbers of the document stand for; no numbers stand
/// for the time of no length.
pub open spec fn mapped_time(numbers: Option<Vec<u8>>, index: usize, part: TimePart) -> Result<
    CueTime,
    TrackBuildFailure,
> {
    match numbers {
        Some(numbers) => match msf_of_sequence(numbers@) {
            Ok(msf) => Ok(CueTime::of(msf)),
            Err(cause) => Err(TrackBuildFailure::Time { index, part, numbers: numbers@, cause }),
        },
        None => Ok(CueTime::of(zero_msf())),
    }
}

/// The gap before a track; where the document names none, a silent gap of
/// no length. The kind is read before the duration.
pub open spec fn mapped_pregap(pregap: Option<JsonPregap>, index: usize) -> Result<
    CuePregap<CueTime>,
    TrackBuildFailure,
> {
    match pregap {
        Some(pregap) => match pregap_type_of(pregap.pregap_type@) {
            Some(pregap_type) => match mapped_time(
                Some(pregap.duration),
                index,
                TimePart::Pregap,
            ) {
                Ok(duration) => Ok(CuePregap { pregap_type, duration }),
                Err(failure) => Err(failure),
            },
            None => Err(
                TrackBuildFailure::UnknownPregapType { index, value: pregap.pregap_type@ },
            ),
        },
        None => Ok(
            CuePregap { pregap_type: CuePregapType::Silent, duration: CueTime::of(zero_msf()) },
        ),
    }
}

/// The track at position `index` of a file of the document as a track of
/// the sheet. The gap before it is read first, then the gap after it, then
/// its start.
pub open spec fn mapped_track(track: JsonTrack, index: usize) -> Result<
    CueTrack,
    TrackBuildFailure,
> {
    match mapped_pregap(track.pregap, index) {
        Ok(pregap) => match mapped_time(track.postgap, index, TimePart::Postgap) {
            Ok(postgap) => match mapped_time(track.start_at, index, TimePart::StartAt) {
                Ok(start_at) => Ok(
                    CueTrack {
                        title: track.title,
                        info: mapped_optional_info(track.info),
                        pregap,
                        postgap,
                        start_at,
                    },
                ),
                Err(failure) => Err(failure),
            },
            Err(failure) => Err(failure),
        },
        Err(failure) => Err(failure),
    }
}

/// The tracks of a file of the document, in order, or the failure of the
/// first that cannot be read.
pub open spec fn mapped_tracks(tracks: Seq<JsonTrack>) -> Result<Seq<CueTrack>, TrackBuildFailure>
    decreases tracks.len(),
{
    if tracks.len() == 0 {
        Ok(Seq::empty())
    } else {
        match mapped_tracks(tracks.drop_last()) {
            Ok(front) => match mapped_track(tracks.last(), (tracks.len() - 1) as usize) {
                Ok(track) => Ok(front.push(track)),
                Err(failure) => Err(failure),
            },
            Err(failure) => Err(failure),
        }
    }
}

/// The file at position `index` of the document as a file of the sheet,
/// given the absolute form of its path, if it has one. The kind of the
/// file is looked at first, then the path, then the tracks.
pub open spec fn mapped_file(file: JsonFile, index: usize, resolved: Option<Seq<char>>) -> Result<
    FileView<CueTrack>,
    BuildFailure,
> {
    if file.file_type@ != "WAVE"@ {
        Err(
            BuildFailure::UnknownFileType { file_type: file.file_type@, index, path: file.path@ },
        )
    } else {
        match resolved {
            Some(path) => match mapped_tracks(file.tracks@) {
                Ok(tracks) => Ok(FileView { path, tracks, file_type: CueFileType::Wave }),
                Err(cause) => Err(BuildFailure::Tracks { index, cause }),
            },
            None => Err(BuildFailure::PathResolution { path: file.path@ }),
        }
    }
}

/// The files of the document, in order, or the failure of the first that
/// cannot be read.
pub open spec fn mapped_files(
    files: Seq<JsonFile>,
    resolved: Seq<Option<Seq<char>>>,
) -> Result<Seq<FileView<CueTrack>>, BuildFailure>
    recommends
        resolved.len() == files.len(),
    decreases files.len(),
{
    if files.len() == 0 {
        Ok(Seq::empty())
    } else {
        match mapped_files(files.drop_last(), resolved.drop_last()) {
            Ok(front) => match mapped_file(
                files.last(),
                (files.len() - 1) as usize,
                resolved[files.len() - 1],
            ) {
                Ok(file) => Ok(front.push(file)),
                Err(failure) => Err(failure),
            },
            Err(failure) => Err(failure),
        }
    }
}

/// The count of all tracks that the document names.
pub open spec fn document_tracks(files: Seq<JsonFile>) -> nat
    decreases files.len(),
{
    if files.len() == 0 {
        0
    } else {
        document_tracks(files.drop_last()) + files.last().tracks@.len()
    }
}

/// The text of the sheet of a document, given the absolute forms of the
/// paths of its files: the document must be of the version that is read,
/// every file and track must be readable, and the album must render.
pub open spec fn built_text(json: Json, resolved: Seq<Option<Seq<char>>>) -> Result<
    Seq<char>,
    BuildFailure,
> {
    if json.version != VERSION {
        Err(BuildFailure::VersionMismatch { version: json.version })
    } else {
        match mapped_files(json.files@, resolved) {
            Ok(files) => match album_lines(files) {
                Ok(lines) => Ok(joined_with_lf(lines)),
                Err(error) => Err(BuildFailure::Render(error)),
            },
            Err(failure) => Err(failure),
        }
    }
}

/// The texts of the paths that were found.
pub open spec fn path_texts(resolved: Seq<Option<String>>) -> Seq<Option<Seq<char>>> {
    Seq::new(
        resolved.len(),
        |i: int|
            match resolved[i] {
                Some(path) => Some(path@),
                None => None,
            },
    )
}

/// The model of what building returns.
pub open spec fn viewed_build(result: Result<String, BuildError>) -> Result<
    Seq<char>,
    BuildFailure,
> {
    match result {
        Ok(text) => Ok(text@),
        Err(error) => Err(error@),
    }
}

/// A failure among the first tracks is the failure of the whole list.
pub proof fn lemma_mapped_tracks_failure_stays(tracks: Seq<JsonTrack>, upto: int)
    requires
        0 <= upto <= tracks.len(),
        mapped_tracks(tracks.take(upto)) is Err,
    ensures
        mapped_tracks(tracks) == mapped_tracks(tracks.take(upto)),
    decreases tracks.len() - upto,
{
    if upto < tracks.len() {
        assert(tracks.take(upto + 1).drop_last() =~= tracks.take(upto));
        lemma_mapped_tracks_failure_stays(tracks, upto + 1);
    } else {
        assert(tracks.take(upto) =~= tracks);
    }
}

/// A failure among the first files is the failure of the whole list.
pub proof fn lemma_mapped_files_failure_stays(
    files: Seq<JsonFile>,
    resolved: Seq<Option<Seq<char>>>,
    upto: int,
)
    requires
        0 <= upto <= files.len(),
        resolved.len() == files.len(),
        mapped_files(files.take(upto), resolved.take(upto)) is Err,
    ensures
        mapped_files(files, resolved) == mapped_files(files.take(upto), resolved.take(upto)),
    decreases files.len() - upto,
{
    if upto < files.len() {
        assert(files.take(upto + 1).drop_last() =~= files.take(upto));
        assert(resolved.take(upto + 1).drop_last() =~= resolved.take(upto));
        lemma_mapped_files_failure_stays(files, resolved, upto + 1);
    } else {
        assert(files.take(upto) =~= files);
        assert(resolved.take(upto) =~= resolved);
    }
}

/// Reading keeps every track: the album has as many as the document names.
pub proof fn lemma_mapping_keeps_tracks(files: Seq<JsonFile>, resolved: Seq<Option<Seq<char>>>)
    requires
        resolved.len() == files.len(),
        mapped_files(files, resolved) is Ok,
    ensures
        album_tracks(mapped_files(files, resolved)->Ok_0) == document_tracks(files),
        mapped_files(files, resolved)->Ok_0.len() == files.len(),
    decreases files.len(),
{
    if files.len() > 0 {
        lemma_mapping_keeps_tracks(files.drop_last(), resolved.drop_last());
        lemma_mapped_tracks_keep_length(files.last().tracks@);
        let front = mapped_files(files.drop_last(), resolved.drop_last())->Ok_0;
        let all = mapped_files(files, resolved)->Ok_0;
        assert(all.drop_last() =~= front);
    }
}

/// The first files of a document name no more tracks than all of them.
pub proof fn lemma_document_tracks_grow(files: Seq<JsonFile>, upto: int)
    requires
        0 <= upto <= files.len(),
    ensures
        document_tracks(files.take(upto)) <= document_tracks(files),
        upto < files.len() ==> document_tracks(files.take(upto + 1)) == document_tracks(
            files.take(upto),
        ) + files[upto].tracks@.len(),
    decreases files.len() - upto,
{
    if upto < files.len() {
        assert(files.take(upto + 1).drop_last() =~= files.take(upto));
        lemma_document_tracks_grow(files, upto + 1);
    } else {
        assert(files.take(upto) =~= files);
    }
}

/// Reading the tracks of a file yields one track for each.
pub proof fn lemma_mapped_tracks_keep_length(tracks: Seq<JsonTrack>)
    requires
        mapped_tracks(tracks) is Ok,
    ensures
        mapped_tracks(tracks)->Ok_0.len() == tracks.len(),
    decreases tracks.len(),
{
    if tracks.len() > 0 {
        lemma_mapped_tracks_keep_length(tracks.drop_last());
    }
}

/// A document of another version than the one that is read is refused,
/// whatever else it holds, and the message ends in the number of its version.
pub proof fn lemma_other_versions_are_refused(json: Json, resolved: Seq<Option<Seq<char>>>)
    requires
        json.version != VERSION,
    ensures
        built_text(json, resolved) == Err::<Seq<char>, BuildFailure>(
            BuildFailure::VersionMismatch { version: json.version },
        ),
        (BuildFailure::VersionMismatch { version: json.version }).text()
            == "incompatible version: "@ + decimal_text(json.version as nat),
{
}

/// A track whose gap is of a kind that no word of the document stands for
/// cannot be read, and the failure names the position of the track and the
/// word.
pub proof fn lemma_unknown_pregap_type_is_refused(track: JsonTrack, index: usize)
    requires
        track.pregap is Some,
        track.pregap->0.pregap_type@ != "included"@,
        track.pregap->0.pregap_type@ != "silent"@,
    ensures
        mapped_track(track, index) == Err::<CueTrack, TrackBuildFailure>(
            TrackBuildFailure::UnknownPregapType { index, value: track.pregap->0.pregap_type@ },
        ),
        (TrackBuildFailure::UnknownPregapType {
            index,
            value: track.pregap->0.pregap_type@,
        }).text() == "unknown pregap_type in index="@ + decimal_text(index as nat) + ": "@
            + track.pregap->0.pregap_type@,
{
}

/// Whether a string spells a word.
fn spells(value: &String, word: &str) -> (same: bool)
    ensures
        same == (value@ == word@),
{
    *value == String::from_str(word)
}

/// A copy of a text that may be absent.
fn clone_text(text: &Option<String>) -> (copy: Option<String>)
    ensures
        copy == *text,
{
    match text {
        Some(text) => Some(text.clone()),
        None => None,
    }
}

/// A copy of the numbers.
fn clone_numbers(numbers: &Vec<u8>) -> (copy: Vec<u8>)
    ensures
        copy@ == numbers@,
{
    let mut copy: Vec<u8> = Vec::new();
    let mut i: usize = 0;
    while i < numbers.len()
        invariant
            i <= numbers.len(),
            copy@ == numbers@.take(i as int),
        decreases numbers.len() - i,
    {
        copy.push(numbers[i]);
        assert(copy@ =~= numbers@.take(i + 1));
        i += 1;
    }
    assert(numbers@.take(i as int) =~= numbers@);
    copy
}

impl View for Json2CueV1 {
    type V = Json;

    closed spec fn view(&self) -> Json {
        self.json
    }
}

impl Json2CueV1 {
    /// A service for one document.
    pub fn new(json: Json) -> (service: Json2CueV1)
        ensures
            service@ == json,
    {
        Json2CueV1 { json }
    }

    /// Whether a document of this version can be read. The version can be
    /// looked at before anything else of a document is.
    pub fn is_parsable_version(version: u8) -> (parsable: bool)
        ensures
            parsable == (version == VERSION),
    {
        version == VERSION
    }

    /// Whether the tracks of the document can be numbered from one in the
    /// machine's word, as [`Json2CueV1::build`] asks of a document that it
    /// can read.
    pub fn track_numbers_fit(&self) -> (fit: bool)
        ensures
            fit == (1 + document_tracks(self@.files@) <= usize::MAX),
    {
        let mut next_number: usize = 1;
        let mut index: usize = 0;
        assert(self.json.files@.take(0).len() == 0);
        while index < self.json.files.len()
            invariant
                index <= self.json.files.len(),
                next_number == 1 + document_tracks(self.json.files@.take(index as int)),
            decreases self.json.files.len() - index,
        {
            proof {
                lemma_document_tracks_grow(self.json.files@, index as int);
                lemma_document_tracks_grow(self.json.files@, index + 1);
            }
            match next_number.checked_add(self.json.files[index].tracks.len()) {
                Some(sum) => {
                    next_number = sum;
                },
                None => {
                    return false;
                },
            }
            index += 1;
        }
        proof {
            assert(self.json.files@.take(index as int) =~= self.json.files@);
        }
        true
    }

    /// The text of the sheet of the document.
    ///
    /// The absolute forms of the paths come from the platform, which looks
    /// at the directory the process runs in: the contract holds for
    /// whatever it found. The track numbers have to fit the machine's word.
    pub fn build(&self) -> (result: Result<String, BuildError>)
        requires
            self@.version == VERSION ==> 1 + document_tracks(self@.files@) <= usize::MAX,
        ensures
            self@.version != VERSION ==> viewed_build(result) == Err::<Seq<char>, BuildFailure>(
                BuildFailure::VersionMismatch { version: self@.version },
            ),
            exists|resolved: Seq<Option<Seq<char>>>|
                {
                    &&& resolved.len() == self@.files@.len()
                    &&& forall|i: int|
                        0 <= i < resolved.len() && self@.files@[i].path@.len() == 0
                            ==> resolved[i] is None
                    &&& #[trigger] built_text(self@, resolved) == viewed_build(result)
                },
    {
        if !Self::is_parsable_version(self.json.version) {
            let ghost nowhere = Seq::new(
                self@.files@.len(),
                |i: int| None::<Seq<char>>,
            );
            assert(built_text(self@, nowhere) == Err::<Seq<char>, BuildFailure>(
                BuildFailure::VersionMismatch { version: self@.version },
            ));
            return Err(BuildError::VersionMismatch { version: self.json.version });
        }
        let resolved = Self::resolve_paths(&self.json.files);
        let result = self.build_with_paths(&resolved);
        assert(built_text(self@, path_texts(resolved@)) == viewed_build(result));
        result
    }

    /// The text of the sheet of the document, given for each file the
    /// absolute form of its path, or `None` where it has none.
    pub fn build_with_paths(&self, resolved: &Vec<Option<String>>) -> (result: Result<
        String,
        BuildError,
    >)
        requires
            resolved@.len() == self@.files@.len(),
            self@.version == VERSION ==> 1 + document_tracks(self@.files@) <= usize::MAX,
        ensures
            viewed_build(result) == built_text(self@, path_texts(resolved@)),
    {
        if !Self::is_parsable_version(self.json.version) {
            return Err(BuildError::VersionMismatch { version: self.json.version });
        }
        let title = self.json.title.clone();
        let genre = clone_text(&self.json.genre);
        let info = Self::build_info(&self.json.info);
        let files = match Self::build_files(&self.json.files, resolved) {
            Ok(files) => files,
            Err(error) => {
                return Err(error);
            },
        };
        let cue = Cue::new(title, genre, info, files);
        proof {
            lemma_files_lines_of_views(cue.files@);
            lemma_mapping_keeps_tracks(self@.files@, path_texts(resolved@));
        }
        match cue.to_cdtext_string() {
            Ok(text) => Ok(text),
            Err(error) => Err(BuildError::Render(error)),
        }
    }

    /// Asks the platform for the absolute form of the path of every file.
    fn resolve_paths(files: &Vec<JsonFile>) -> (resolved: Vec<Option<String>>)
        ensures
            resolved@.len() == files@.len(),
            forall|i: int|
                0 <= i < files@.len() && files@[i].path@.len() == 0 ==> path_texts(
                    resolved@,
                )[i] is None,
    {
        let mut resolved: Vec<Option<String>> = Vec::new();
        let mut index: usize = 0;
        while index < files.len()
            invariant
                index <= files.len(),
                resolved@.len() == index,
                forall|i: int|
                    0 <= i < index && files@[i].path@.len() == 0 ==> resolved@[i] is None,
            decreases files.len() - index,
        {
            resolved.push(absolute_path(&files[index].path));
            index += 1;
        }
        resolved
    }

    /// The people of the document, where it names any.
    fn build_info(info: &Option<JsonInfo>) -> (result: Option<CueInfo>)
        ensures
            result == mapped_optional_info(*info),
    {
        match info {
            None => None,
            Some(info) => Some(Self::build_confirmed_info(info)),
        }
    }

    /// The people of the document as the people of the sheet.
    fn build_confirmed_info(info: &JsonInfo) -> (result: CueInfo)
        ensures
            result == mapped_info(*info),
    {
        CueInfo::new(
            clone_text(&info.arranger),
            clone_text(&info.composer),
            clone_text(&info.lyricist),
            clone_text(&info.performer),
        )
    }

    /// Reads the files in order and stops at the first that cannot be read.
    fn build_files(files: &Vec<JsonFile>, resolved: &Vec<Option<String>>) -> (result: Result<
        Vec<CueFile>,
        BuildError,
    >)
        requires
            resolved@.len() == files@.len(),
        ensures
            match result {
                Ok(built) => mapped_files(files@, path_texts(resolved@)) == Ok::<
                    Seq<FileView<CueTrack>>,
                    BuildFailure,
                >(views_of(built@)),
                Err(error) => mapped_files(files@, path_texts(resolved@)) == Err::<
                    Seq<FileView<CueTrack>>,
                    BuildFailure,
                >(error@),
            },
    {
        let ghost paths = path_texts(resolved@);
        let mut result: Vec<CueFile> = Vec::new();
        let mut index: usize = 0;
        assert(views_of(result@) =~= Seq::<FileView<CueTrack>>::empty());
        while index < files.len()
            invariant
                index <= files.len(),
                resolved@.len() == files@.len(),
                paths == path_texts(resolved@),
                mapped_files(files@.take(index as int), paths.take(index as int)) == Ok::<
                    Seq<FileView<CueTrack>>,
                    BuildFailure,
                >(views_of(result@)),
            decreases files.len() - index,
        {
            let file = &files[index];
            proof {
                assert(files@.take(index + 1).drop_last() =~= files@.take(index as int));
                assert(paths.take(index + 1).drop_last() =~= paths.take(index as int));
            }
            let built = match Self::build_file(file, index, &resolved[index]) {
                Ok(built) => built,
                Err(error) => {
                    proof {
                        lemma_mapped_files_failure_stays(files@, paths, index + 1);
                    }
                    return Err(error);
                },
            };
            proof {
                assert(views_of(result@.push(built)) =~= views_of(result@).push(built@));
            }
            result.push(built);
            index += 1;
        }
        proof {
            assert(files@.take(index as int) =~= files@);
            assert(paths.take(index as int) =~= paths);
        }
        Ok(result)
    }

    /// Reads the file at position `index`, given the absolute form of its
    /// path, if it has one.
    fn build_file(file: &JsonFile, index: usize, resolved: &Option<String>) -> (result: Result<
        CueFile,
        BuildError,
    >)
        ensures
            match result {
                Ok(built) => mapped_file(
                    *file,
                    index,
                    match *resolved {
                        Some(path) => Some(path@),
                        None => None,
                    },
                ) == Ok::<FileView<CueTrack>, BuildFailure>(built@),
                Err(error) => mapped_file(
                    *file,
                    index,
                    match *resolved {
                        Some(path) => Some(path@),
                        None => None,
                    },
                ) == Err::<FileView<CueTrack>, BuildFailure>(error@),
            },
    {
        if !spells(&file.file_type, "WAVE") {
            return Err(
                BuildError::UnknownFileType {
                    file_type: file.file_type.clone(),
                    index,
                    path: file.path.clone(),
                },
            );
        }
        let Some(path) = resolved else {
            return Err(BuildError::PathResolution { path: file.path.clone() });
        };
        let tracks = match Self::build_tracks(&file.tracks) {
            Ok(tracks) => tracks,
            Err(cause) => {
                return Err(BuildError::Tracks { index, cause });
            },
        };
        Ok(CueFile::new(path.clone(), tracks, CueFileType::Wave))
    }

    /// Reads the tracks in order and stops at the first that cannot be read.
    fn build_tracks(tracks: &Vec<JsonTrack>) -> (result: Result<Vec<CueTrack>, TrackBuildError>)
        ensures
            match result {
                Ok(built) => mapped_tracks(tracks@) == Ok::<Seq<CueTrack>, TrackBuildFailure>(
                    built@,
                ),
                Err(error) => mapped_tracks(tracks@) == Err::<Seq<CueTrack>, TrackBuildFailure>(
                    error@,
                ),
            },
    {
        let mut result: Vec<CueTrack> = Vec::new();
        let mut index: usize = 0;
        while index < tracks.len()
            invariant
                index <= tracks.len(),
                mapped_tracks(tracks@.take(index as int)) == Ok::<
                    Seq<CueTrack>,
                    TrackBuildFailure,
                >(result@),
            decreases tracks.len() - index,
        {
            proof {
                assert(tracks@.take(index + 1).drop_last() =~= tracks@.take(index as int));
            }
            let built = match Self::build_track(&tracks[index], index) {
                Ok(built) => built,
                Err(error) => {
                    proof {
                        lemma_mapped_tracks_failure_stays(tracks@, index + 1);
                    }
                    return Err(error);
                },
            };
            result.push(built);
            index += 1;
        }
        proof {
            assert(tracks@.take(index as int) =~= tracks@);
        }
        Ok(result)
    }

    /// Reads the track at position `index` of a file.
    fn build_track(track: &JsonTrack, index: usize) -> (result: Result<CueTrack, TrackBuildError>)
        ensures
            match result {
                Ok(built) => mapped_track(*track, index) == Ok::<CueTrack, TrackBuildFailure>(
                    built,
                ),
                Err(error) => mapped_track(*track, index) == Err::<CueTrack, TrackBuildFailure>(
                    error@,
                ),
            },
    {
        let title = track.title.clone();
        let info = Self::build_info(&track.info);
        let pregap = Self::build_pregap(&track.pregap, index)?;
        let postgap = Self::build_time(&track.postgap, index, TimePart::Postgap)?;
        let start_at = Self::build_time(&track.start_at, index, TimePart::StartAt)?;
        Ok(CueTrack::new(title, info, pregap, postgap, start_at))
    }

    /// Reads the gap before the track at position `index`.
    fn build_pregap(pregap: &Option<JsonPregap>, index: usize) -> (result: Result<
        CuePregap<CueTime>,
        TrackBuildError,
    >)
        ensures
            match result {
                Ok(built) => mapped_pregap(*pregap, index) == Ok::<
                    CuePregap<CueTime>,
                    TrackBuildFailure,
                >(built),
                Err(error) => mapped_pregap(*pregap, index) == Err::<
                    CuePregap<CueTime>,
                    TrackBuildFailure,
                >(error@),
            },
    {
        let Some(pregap) = pregap else {
            let duration = CueTime::zero();
            proof {
                duration.lemma_of_view();
            }
            return Ok(CuePregap { pregap_type: CuePregapType::Silent, duration });
        };
        let pregap_type = if spells(&pregap.pregap_type, "included") {
            CuePregapType::Included
        } else if spells(&pregap.pregap_type, "silent") {
            CuePregapType::Silent
        } else {
            return Err(
                TrackBuildError::UnknownPregapType { index, value: pregap.pregap_type.clone() },
            );
        };
        let duration = match CueTime::from_vec(&pregap.duration) {
            Ok(duration) => duration,
            Err(cause) => {
                return Err(
                    TrackBuildError::Time {
                        index,
                        part: TimePart::Pregap,
                        numbers: clone_numbers(&pregap.duration),
                        cause,
                    },
                );
            },
        };
        proof {
            duration.lemma_of_view();
        }
        Ok(CuePregap { pregap_type, duration })
    }

    /// Reads one of the times of the track at position `index`.
    fn build_time(numbers: &Option<Vec<u8>>, index: usize, part: TimePart) -> (result: Result<
        CueTime,
        TrackBuildError,
    >)
        ensures
            match result {
                Ok(time) => mapped_time(*numbers, index, part) == Ok::<CueTime, TrackBuildFailure>(
                    time,
                ),
                Err(error) => mapped_time(*numbers, index, part) == Err::<
                    CueTime,
                    TrackBuildFailure,
                >(error@),
            },
    {
        let Some(numbers) = numbers else {
            let time = CueTime::zero();
            proof {
                time.lemma_of_view();
            }
            return Ok(time);
        };
        match CueTime::from_vec(numbers) {
            Ok(time) => {
                proof {
                    time.lemma_of_view();
                }
                Ok(time)
            },
            Err(cause) => Err(
                TrackBuildError::Time { index, part, numbers: clone_numbers(numbers), cause },
            ),
        }
    }
}

} // verus!
