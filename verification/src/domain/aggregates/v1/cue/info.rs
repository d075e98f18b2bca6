//! The four informational fields of an album or a track.

use crate::share::text::{quoted_entry, quoted_entry_string};
use crate::share::util::{build_indent_string, indented, lemma_texts_push, texts};
use vstd::prelude::*;

verus! {

/// What renders itself as the lines of its informational fields.
///
/// `cdtext_lines` names the lines. A type that implements the trait outside
/// verified code owes what the contract says: `to_cdtext_strings` depends on
/// the value and on `indent` alone.
pub trait InfoFormatter {
    /// The lines that `to_cdtext_strings` returns.
    spec fn cdtext_lines(&self, indent: bool) -> Seq<Seq<char>>;

    fn to_cdtext_strings(&self, indent: bool) -> (lines: Vec<String>)
        ensures
            texts(lines@) == self.cdtext_lines(indent),
    ;
}

/// The people behind an album or a track; each field may be absent.
#[derive(Debug)]
pub struct Info {
    pub arranger: Option<String>,
    pub composer: Option<String>,
    pub lyricist: Option<String>,
    pub performer: Option<String>,
}

/// A line as it is, or one level deeper.
pub open spec fn placed(line: Seq<char>, indent: bool) -> Seq<char> {
    if indent {
        indented(line)
    } else {
        line
    }
}

/// The line of one field: `key "value"` where the field is present, nothing
/// where it is absent.
pub open spec fn field_lines(key: Seq<char>, value: Option<String>, indent: bool) -> Seq<
    Seq<char>,
> {
    match value {
        Some(value) => seq![placed(quoted_entry(key, value@), indent)],
        None => Seq::empty(),
    }
}

/// The lines of the present fields, in the order arranger, composer,
/// lyricist, performer.
pub open spec fn info_lines(info: Info, indent: bool) -> Seq<Seq<char>> {
    field_lines("REM ARRANGER"@, info.arranger, indent) + field_lines(
        "REM COMPOSER"@,
        info.composer,
        indent,
    ) + field_lines("REM LYRICIST"@, info.lyricist, indent) + field_lines(
        "PERFORMER"@,
        info.performer,
        indent,
    )
}

/// With all four fields present there are exactly four lines, in the fixed
/// order; with none present there is no line.
pub proof fn lemma_info_lines_full_and_empty(info: Info, indent: bool)
    ensures
        (info.arranger is Some && info.composer is Some && info.lyricist is Some
            && info.performer is Some) ==> info_lines(info, indent) == seq![
            placed(quoted_entry("REM ARRANGER"@, info.arranger->0@), indent),
            placed(quoted_entry("REM COMPOSER"@, info.composer->0@), indent),
            placed(quoted_entry("REM LYRICIST"@, info.lyricist->0@), indent),
            placed(quoted_entry("PERFORMER"@, info.performer->0@), indent),
        ],
        (info.arranger is None && info.composer is None && info.lyricist is None
            && info.performer is None) ==> info_lines(info, indent) == Seq::<Seq<char>>::empty(),
{
    if info.arranger is Some && info.composer is Some && info.lyricist is Some
        && info.performer is Some {
        assert(info_lines(info, indent) =~= seq![
            placed(quoted_entry("REM ARRANGER"@, info.arranger->0@), indent),
            placed(quoted_entry("REM COMPOSER"@, info.composer->0@), indent),
            placed(quoted_entry("REM LYRICIST"@, info.lyricist->0@), indent),
            placed(quoted_entry("PERFORMER"@, info.performer->0@), indent),
        ]);
    }
    if info.arranger is None && info.composer is None && info.lyricist is None
        && info.performer is None {
        assert(info_lines(info, indent) =~= Seq::<Seq<char>>::empty());
    }
}

impl Info {
    /// The people with these names.
    pub fn new(
        arranger: Option<String>,
        composer: Option<String>,
        lyricist: Option<String>,
        performer: Option<String>,
    ) -> (info: Info)
        ensures
            info == (Info { arranger, composer, lyricist, performer }),
    {
        Info { arranger, composer, lyricist, performer }
    }

    /// The line as it is, or one level deeper.
    fn build_string(base_string: String, indent: bool) -> (result: String)
        ensures
            result@ == placed(base_string@, indent),
    {
        if indent {
            return build_indent_string(&base_string);
        }
        base_string
    }

    /// Adds the line of one field to `lines`.
    fn push_field(lines: &mut Vec<String>, key: &str, value: &Option<String>, indent: bool)
        ensures
            texts(final(lines)@) == texts(old(lines)@) + field_lines(key@, *value, indent),
    {
        if let Some(value) = value {
            let line = Self::build_string(quoted_entry_string(key, value.as_str()), indent);
            proof {
                lemma_texts_push(lines@, line);
                assert(texts(lines@).push(line@) =~= texts(lines@) + field_lines(
                    key@,
                    Some(*value),
                    indent,
                ));
            }
            lines.push(line);
        } else {
            assert(texts(lines@) =~= texts(lines@) + field_lines(key@, *value, indent));
        }
    }
}

impl InfoFormatter for Info {
    open spec fn cdtext_lines(&self, indent: bool) -> Seq<Seq<char>> {
        info_lines(*self, indent)
    }

    fn to_cdtext_strings(&self, indent: bool) -> (lines: Vec<String>) {
        let mut lines: Vec<String> = Vec::new();
        assert(texts(lines@) =~= Seq::<Seq<char>>::empty());
        Self::push_field(&mut lines, "REM ARRANGER", &self.arranger, indent);
        Self::push_field(&mut lines, "REM COMPOSER", &self.composer, indent);
        Self::push_field(&mut lines, "REM LYRICIST", &self.lyricist, indent);
        Self::push_field(&mut lines, "PERFORMER", &self.performer, indent);
        assert(texts(lines@) =~= info_lines(*self, indent));
        lines
    }
}

} // verus!
