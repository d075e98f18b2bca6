//! Indentation and joining of rendered lines.

use vstd::prelude::*;

verus! {

/// One level of nesting in a sheet: two spaces.
pub open spec fn indent_unit() -> Seq<char> {
    seq![' ', ' ']
}

/// A line moved one level deeper.
pub open spec fn indented(line: Seq<char>) -> Seq<char> {
    indent_unit() + line
}

/// Every line of `lines` moved one level deeper.
pub open spec fn indented_lines(lines: Seq<Seq<char>>) -> Seq<Seq<char>> {
    Seq::new(lines.len(), |i: int| indented(lines[i]))
}

/// The lines joined by single line feeds, with none after the last line.
pub open spec fn joined_with_lf(lines: Seq<Seq<char>>) -> Seq<char>
    decreases lines.len(),
{
    if lines.len() == 0 {
        Seq::empty()
    } else if lines.len() == 1 {
        lines[0]
    } else {
        joined_with_lf(lines.drop_last()) + seq!['\n'] + lines.last()
    }
}

/// The text of each string, in order: the model of a list of rendered lines.
pub open spec fn texts(strings: Seq<String>) -> Seq<Seq<char>> {
    Seq::new(strings.len(), |i: int| strings[i]@)
}

/// Pushing a string onto a list pushes its text onto the list's model.
pub proof fn lemma_texts_push(strings: Seq<String>, line: String)
    ensures
        texts(strings.push(line)) == texts(strings).push(line@),
{
    assert(texts(strings.push(line)) =~= texts(strings).push(line@));
}

/// Appending one list to another appends the models.
pub proof fn lemma_texts_concat(front: Seq<String>, back: Seq<String>)
    ensures
        texts(front + back) == texts(front) + texts(back),
{
    assert(texts(front + back) =~= texts(front) + texts(back));
}

/// The string one level deeper.
pub fn build_indent_string(base_string: &String) -> (result: String)
    ensures
        result@ == indented(base_string@),
{
    let mut result = String::from_str("  ");
    proof {
        reveal_strlit("  ");
        assert("  "@ =~= indent_unit());
    }
    result.append(base_string.as_str());
    result
}

/// The strings joined by single line feeds.
pub fn join_strings_with_lf(strings: &Vec<String>) -> (result: String)
    ensures
        result@ == joined_with_lf(texts(strings@)),
{
    let ghost lines = texts(strings@);
    let mut result = String::new();
    let mut i: usize = 0;
    while i < strings.len()
        invariant
            i <= strings.len(),
            lines == texts(strings@),
            result@ == joined_with_lf(lines.take(i as int)),
        decreases strings.len() - i,
    {
        proof {
            assert(lines.take(i + 1).drop_last() =~= lines.take(i as int));
            assert(lines.take(i + 1).last() == strings[i as int]@);
        }
        if i > 0 {
            proof {
                reveal_strlit("\n");
                assert("\n"@ =~= seq!['\n']);
            }
            result.append("\n");
        } else {
            assert(result@ =~= Seq::<char>::empty()) by {
                assert(lines.take(0).len() == 0);
            }
            assert(Seq::<char>::empty() + strings[i as int]@ =~= strings[i as int]@);
        }
        result.append(strings[i].as_str());
        i += 1;
    }
    proof {
        assert(lines.take(i as int) =~= lines);
    }
    result
}

} // verus!
