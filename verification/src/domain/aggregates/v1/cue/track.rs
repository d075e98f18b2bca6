//! One track of a file, and the lines it contributes to a sheet.

use super::info::{Info, InfoFormatter};
use super::pregap::Pregap;
use super::pregap_type::PregapType;
use super::time::{Time, TimeArithmetic, TimeFormatter};
use crate::share::text::{
    plain_entry, plain_entry_string, quoted_entry, quoted_entry_string, two_digit_string,
    two_digit_text,
};
use crate::share::util::{
    build_indent_string, indented, indented_lines, lemma_texts_concat, lemma_texts_push, texts,
};
use vstd::prelude::*;

verus! {

/// Why a track could not be rendered.
#[derive(Debug, Clone, Copy, PartialEq, Eq, Structural)]
pub enum TrackError {
    /// The start of the track plus its gap lies beyond the last time.
    TimeOverflow,
}

/// What renders itself as the lines of a track.
///
/// `cdtext_lines` names what `to_cdtext_strings` returns. A type that
/// implements the trait outside verified code owes what the contract says:
/// the result depends on the value and the two arguments alone.
pub trait TrackFormatter {
    /// The lines that `to_cdtext_strings` returns, or why it returns none.
    spec fn cdtext_lines(&self, number: usize, indent: bool) -> Result<Seq<Seq<char>>, TrackError>;

    fn to_cdtext_strings(&self, number: usize, indent: bool) -> (result: Result<
        Vec<String>,
        TrackError,
    >)
        ensures
            viewed_lines(result) == self.cdtext_lines(number, indent),
    ;
}

/// A track: its title, the people behind it, the gap before it, the gap
/// after it and where its audio starts in the file.
pub struct Track<T: TimeFormatter = Time, I: InfoFormatter = Info> {
    pub title: String,
    pub info: Option<I>,
    pub pregap: Pregap<T>,
    pub postgap: T,
    pub start_at: T,
}

/// The model of rendered lines, or of the failure to render them.
pub open spec fn viewed_lines<E>(result: Result<Vec<String>, E>) -> Result<Seq<Seq<char>>, E> {
    match result {
        Ok(lines) => Ok(texts(lines@)),
        Err(error) => Err(error),
    }
}

/// `TRACK NN AUDIO`, the number at least two digits wide.
pub open spec fn track_header(number: usize) -> Seq<char> {
    "TRACK "@ + two_digit_text(number as nat) + " AUDIO"@
}

/// The lines of the people behind a track, one level deep; none where
/// nothing is known of them.
pub open spec fn optional_info_lines<I: InfoFormatter>(info: Option<I>) -> Seq<Seq<char>> {
    match info {
        Some(info) => info.cdtext_lines(true),
        None => Seq::empty(),
    }
}

/// The lines that place a track and the gap before it.
///
/// A gap of no length leaves only the start of the track. A silent gap is
/// announced before the start. An included gap starts where the track is
/// said to start, and the audio proper follows after the gap's duration,
/// which must not lie beyond the last time.
pub open spec fn index_lines<T: TimeFormatter + TimeArithmetic>(
    pregap: Pregap<T>,
    start_at: T,
) -> Result<Seq<Seq<char>>, TrackError> {
    if pregap.duration.is_zero_time() {
        Ok(seq![plain_entry("INDEX 01"@, start_at.msf_text())])
    } else {
        match pregap.pregap_type {
            PregapType::Silent => Ok(
                seq![
                    plain_entry("PREGAP"@, pregap.duration.msf_text()),
                    plain_entry("INDEX 01"@, start_at.msf_text()),
                ],
            ),
            PregapType::Included => match start_at.sum_with(&pregap.duration) {
                Some(audio_start) => Ok(
                    seq![
                        plain_entry("INDEX 00"@, start_at.msf_text()),
                        plain_entry("INDEX 01"@, audio_start.msf_text()),
                    ],
                ),
                None => Err(TrackError::TimeOverflow),
            },
        }
    }
}

/// The lines of a track under its header, each one level deep: the title,
/// the people, the gap before and the start, the gap after.
pub open spec fn track_details<T: TimeFormatter + TimeArithmetic, I: InfoFormatter>(
    track: Track<T, I>,
    placing: Seq<Seq<char>>,
) -> Seq<Seq<char>> {
    seq![indented(quoted_entry("TITLE"@, track.title@))] + optional_info_lines(track.info)
        + indented_lines(placing) + seq![
        indented(plain_entry("POSTGAP"@, track.postgap.msf_text())),
    ]
}

/// All lines of a track with the given number: the header and the details,
/// as they are or, with `indent`, each one level deeper.
pub open spec fn track_lines<T: TimeFormatter + TimeArithmetic, I: InfoFormatter>(
    track: Track<T, I>,
    number: usize,
    indent: bool,
) -> Result<Seq<Seq<char>>, TrackError> {
    match index_lines(track.pregap, track.start_at) {
        Ok(placing) => {
            let lines = seq![track_header(number)] + track_details(track, placing);
            Ok(
                if indent {
                    indented_lines(lines)
                } else {
                    lines
                },
            )
        },
        Err(error) => Err(error),
    }
}

impl TrackError {
    /// The message of this error.
    pub open spec fn text(self) -> Seq<char> {
        "(start_at + pregap) exceeds range of Time object"@
    }

    /// The message of this error, for a person to read.
    pub fn message(&self) -> (message: String)
        ensures
            message@ == self.text(),
    {
        String::from_str("(start_at + pregap) exceeds range of Time object")
    }
}

/// With `indent`, every line of a track, the header included, stands one
/// level deeper than without; whether the track can be rendered does not
/// depend on it.
pub proof fn lemma_indent_moves_every_line<T: TimeFormatter + TimeArithmetic, I: InfoFormatter>(
    track: Track<T, I>,
    number: usize,
)
    ensures
        match (track_lines(track, number, false), track_lines(track, number, true)) {
            (Ok(plain), Ok(deep)) => {
                &&& deep.len() == plain.len()
                &&& plain[0] == track_header(number)
                &&& forall|i: int| 0 <= i < plain.len() ==> deep[i] == indented(plain[i])
            },
            (Err(plain), Err(deep)) => plain == deep,
            _ => false,
        },
{
}

impl<T: TimeFormatter, I: InfoFormatter> Track<T, I> {
    /// The track with these parts.
    pub fn new(title: String, info: Option<I>, pregap: Pregap<T>, postgap: T, start_at: T) -> (track:
        Track<T, I>)
        ensures
            track == (Track { title, info, pregap, postgap, start_at }),
    {
        Track { title, info, pregap, postgap, start_at }
    }

    /// The lines as they are, or each one level deeper.
    fn build_strings(base_strings: Vec<String>, indent: bool) -> (result: Vec<String>)
        ensures
            texts(result@) == if indent {
                indented_lines(texts(base_strings@))
            } else {
                texts(base_strings@)
            },
    {
        if indent {
            let mut result: Vec<String> = Vec::new();
            let mut i: usize = 0;
            while i < base_strings.len()
                invariant
                    i <= base_strings.len(),
                    texts(result@) == indented_lines(texts(base_strings@).take(i as int)),
                decreases base_strings.len() - i,
            {
                let line = build_indent_string(&base_strings[i]);
                proof {
                    lemma_texts_push(result@, line);
                    assert(indented_lines(texts(base_strings@).take(i as int)).push(line@)
                        =~= indented_lines(texts(base_strings@).take(i + 1)));
                }
                result.push(line);
                i += 1;
            }
            proof {
                assert(texts(base_strings@).take(i as int) =~= texts(base_strings@));
            }
            return result;
        }
        base_strings
    }
}

impl<T: TimeFormatter + TimeArithmetic, I: InfoFormatter> Track<T, I> {
    /// The lines that place the track and the gap before it, not yet indented.
    fn index_strings(&self) -> (result: Result<Vec<String>, TrackError>)
        ensures
            viewed_lines(result) == index_lines(self.pregap, self.start_at),
    {
        let mut lines: Vec<String> = Vec::new();
        let start = self.start_at.to_msf_string();
        if self.pregap.duration.is_zero() {
            lines.push(plain_entry_string("INDEX 01", start.as_str()));
            assert(texts(lines@) =~= seq![plain_entry("INDEX 01"@, start@)]);
            return Ok(lines);
        }
        match self.pregap.pregap_type {
            PregapType::Silent => {
                let duration = self.pregap.duration.to_msf_string();
                lines.push(plain_entry_string("PREGAP", duration.as_str()));
                lines.push(plain_entry_string("INDEX 01", start.as_str()));
                assert(texts(lines@) =~= seq![
                    plain_entry("PREGAP"@, duration@),
                    plain_entry("INDEX 01"@, start@),
                ]);
                Ok(lines)
            },
            PregapType::Included => {
                let Some(audio_start) = self.start_at.checked_add(&self.pregap.duration) else {
                    return Err(TrackError::TimeOverflow);
                };
                let audio = audio_start.to_msf_string();
                lines.push(plain_entry_string("INDEX 00", start.as_str()));
                lines.push(plain_entry_string("INDEX 01", audio.as_str()));
                assert(texts(lines@) =~= seq![
                    plain_entry("INDEX 00"@, start@),
                    plain_entry("INDEX 01"@, audio@),
                ]);
                Ok(lines)
            },
        }
    }
}

impl<T: TimeFormatter + TimeArithmetic, I: InfoFormatter> TrackFormatter for Track<T, I> {
    open spec fn cdtext_lines(&self, number: usize, indent: bool) -> Result<
        Seq<Seq<char>>,
        TrackError,
    > {
        track_lines(*self, number, indent)
    }

    fn to_cdtext_strings(&self, number: usize, indent: bool) -> (result: Result<
        Vec<String>,
        TrackError,
    >) {
        let mut lines: Vec<String> = Vec::new();
        // The header stays at the track's own level.
        let mut header = String::from_str("TRACK ");
        header.append(two_digit_string(number).as_str());
        header.append(" AUDIO");
        lines.push(header);
        // Everything below it goes one level deeper.
        let title = quoted_entry_string("TITLE", self.title.as_str());
        lines.push(build_indent_string(&title));
        if let Some(info) = &self.info {
            let mut info_strings = info.to_cdtext_strings(true);
            proof {
                lemma_texts_concat(lines@, info_strings@);
            }
            lines.append(&mut info_strings);
        }
        assert(texts(lines@) =~= seq![track_header(number)] + seq![
            indented(quoted_entry("TITLE"@, self.title@)),
        ] + optional_info_lines(self.info));
        let placing = match self.index_strings() {
            Ok(placing) => placing,
            Err(error) => {
                return Err(error);
            },
        };
        let mut placed = Self::build_strings(placing, true);
        proof {
            lemma_texts_concat(lines@, placed@);
        }
        lines.append(&mut placed);
        let postgap = plain_entry_string("POSTGAP", self.postgap.to_msf_string().as_str());
        let postgap_line = build_indent_string(&postgap);
        proof {
            lemma_texts_push(lines@, postgap_line);
        }
        lines.push(postgap_line);
        assert(texts(lines@) =~= seq![track_header(number)] + track_details(
            *self,
            index_lines(self.pregap, self.start_at)->Ok_0,
        ));
        Ok(Self::build_strings(lines, indent))
    }
}

} // verus!
