//! What the user types: the list of extensions, and the answer to a yes/no
//! question.

use vstd::prelude::*;
use vstd::string::*;

verus! {

/// Whether `c` is white space, as `char::is_whitespace` says.
pub uninterp spec fn white_space(c: char) -> bool;

/// Calls `char::is_whitespace`.
///
/// Trusted, not proved: the answer depends on the character alone.
#[verifier::external_body]
fn is_whitespace(c: char) -> (b: bool)
    ensures
        b == white_space(c),
{
    c.is_whitespace()
}

/// How many characters of white space `text` begins with.
pub open spec fn leading_space(text: Seq<char>) -> nat
    decreases text.len(),
{
    if text.len() > 0 && white_space(text.first()) {
        1 + leading_space(text.drop_first())
    } else {
        0
    }
}

/// How many characters of white space `text` ends with.
pub open spec fn trailing_space(text: Seq<char>) -> nat
    decreases text.len(),
{
    if text.len() > 0 && white_space(text.last()) {
        1 + trailing_space(text.drop_last())
    } else {
        0
    }
}

/// `text` without the white space that it begins and ends with.
pub open spec fn trimmed(text: Seq<char>) -> Seq<char> {
    let inner = text.skip(leading_space(text) as int);
    inner.take(inner.len() - trailing_space(inner))
}

/// The pieces of `text` between its commas, in order. A comma opens a new
/// piece, empty at first; any other character goes to the end of the last
/// piece. Text without a comma is one piece, the empty text too.
pub open spec fn split_at_commas(text: Seq<char>) -> Seq<Seq<char>>
    decreases text.len(),
{
    if text.len() == 0 {
        seq![Seq::empty()]
    } else {
        let before = split_at_commas(text.drop_last());
        if text.last() == ',' {
            before.push(Seq::empty())
        } else {
            before.drop_last().push(before.last().push(text.last()))
        }
    }
}

/// The extension set that the user's line asks for: the line without the
/// white space around it, cut at its commas.
pub open spec fn extensions_of(line: Seq<char>) -> Seq<Seq<char>> {
    split_at_commas(trimmed(line))
}

/// The answer that the user's line gives to a yes/no question: yes for `y` or
/// `Y`, no for `n` or `N`, white space around it aside; any other line is no
/// answer.
pub open spec fn answer_of(line: Seq<char>) -> Option<bool> {
    let word = trimmed(line);
    if word.len() != 1 {
        None
    } else if word[0] == 'y' || word[0] == 'Y' {
        Some(true)
    } else if word[0] == 'n' || word[0] == 'N' {
        Some(false)
    } else {
        None
    }
}

proof fn lemma_leading_space_bound(text: Seq<char>)
    ensures
        leading_space(text) <= text.len(),
        forall|i: int| 0 <= i < leading_space(text) ==> white_space(#[trigger] text[i]),
        leading_space(text) < text.len() ==> !white_space(text[leading_space(text) as int]),
    decreases text.len(),
{
    if text.len() > 0 && white_space(text.first()) {
        let rest = text.drop_first();
        lemma_leading_space_bound(rest);
        assert forall|i: int| 0 <= i < leading_space(text) implies white_space(
            #[trigger] text[i],
        ) by {
            if i > 0 {
                assert(text[i] == rest[i - 1]);
            }
        }
        if leading_space(text) < text.len() {
            assert(text[leading_space(text) as int] == rest[leading_space(rest) as int]);
        }
    }
}

proof fn lemma_trailing_space_bound(text: Seq<char>)
    ensures
        trailing_space(text) <= text.len(),
        forall|i: int|
            text.len() - trailing_space(text) <= i < text.len() ==> white_space(#[trigger] text[i]),
        trailing_space(text) < text.len() ==> !white_space(
            text[text.len() - trailing_space(text) - 1],
        ),
    decreases text.len(),
{
    if text.len() > 0 && white_space(text.last()) {
        let rest = text.drop_last();
        lemma_trailing_space_bound(rest);
        assert forall|i: int|
            text.len() - trailing_space(text) <= i < text.len() implies white_space(
            #[trigger] text[i],
        ) by {
            if i < text.len() - 1 {
                assert(text[i] == rest[i]);
            }
        }
        if trailing_space(text) < text.len() {
            assert(text[text.len() - trailing_space(text) - 1] == rest[rest.len() - trailing_space(
                rest,
            ) - 1]);
        }
    }
}

proof fn lemma_leading_space_found(text: Seq<char>, n: int)
    requires
        0 <= n <= text.len(),
        forall|i: int| 0 <= i < n ==> white_space(#[trigger] text[i]),
        n < text.len() ==> !white_space(text[n]),
    ensures
        leading_space(text) == n,
    decreases text.len(),
{
    if n > 0 {
        let rest = text.drop_first();
        assert(white_space(text[0]));
        assert forall|i: int| 0 <= i < n - 1 implies white_space(#[trigger] rest[i]) by {
            assert(rest[i] == text[i + 1]);
        }
        if n - 1 < rest.len() {
            assert(rest[n - 1] == text[n]);
        }
        lemma_leading_space_found(rest, n - 1);
    }
}

proof fn lemma_trailing_space_found(text: Seq<char>, n: int)
    requires
        0 <= n <= text.len(),
        forall|i: int| text.len() - n <= i < text.len() ==> white_space(#[trigger] text[i]),
        n < text.len() ==> !white_space(text[text.len() - n - 1]),
    ensures
        trailing_space(text) == n,
    decreases text.len(),
{
    if n > 0 {
        let rest = text.drop_last();
        assert(white_space(text[text.len() - 1]));
        assert forall|i: int| rest.len() - (n - 1) <= i < rest.len() implies white_space(
            #[trigger] rest[i],
        ) by {
            assert(rest[i] == text[i]);
        }
        if n - 1 < rest.len() {
            assert(rest[rest.len() - (n - 1) - 1] == text[text.len() - n - 1]);
        }
        lemma_trailing_space_found(rest, n - 1);
    }
}

/// `line` without the white space that it begins and ends with.
pub fn trim(line: &str) -> (word: String)
    ensures
        word@ == trimmed(line@),
{
    let len = line.unicode_len();
    let mut first: usize = 0;
    let mut end: usize = 0;
    let mut met = false;
    let mut i: usize = 0;
    for c in it: line.chars()
        invariant
            i == it.index(),
            it.seq() == line@,
            len == line@.len(),
            first <= end <= i,
            !met ==> first == 0 && end == 0,
            !met ==> forall|j: int| 0 <= j < i ==> white_space(#[trigger] line@[j]),
            met ==> first < end,
            met ==> forall|j: int| 0 <= j < first ==> white_space(#[trigger] line@[j]),
            met ==> !white_space(line@[first as int]),
            met ==> !white_space(line@[end - 1]),
            met ==> forall|j: int| end <= j < i ==> white_space(#[trigger] line@[j]),
    {
        if !is_whitespace(c) {
            if !met {
                first = i;
                met = true;
            }
            end = i + 1;
        }
        i = i + 1;
    }
    if !met {
        proof {
            lemma_leading_space_found(line@, len as int);
            assert(trimmed(line@) =~= Seq::empty());
        }
        String::new()
    } else {
        proof {
            lemma_leading_space_found(line@, first as int);
            let inner = line@.skip(first as int);
            assert forall|j: int| inner.len() - (len - end) <= j < inner.len() implies white_space(
                #[trigger] inner[j],
            ) by {
                assert(inner[j] == line@[j + first]);
            }
            assert(inner[inner.len() - (len - end) - 1] == line@[end - 1]);
            lemma_trailing_space_found(inner, len - end);
            assert(trimmed(line@) =~= line@.subrange(first as int, end as int));
        }
        line.substring_char(first, end).to_owned()
    }
}

/// The extension set that the user's line asks for.
pub fn parse_extensions(line: &str) -> (ext_vec: Vec<String>)
    ensures
        ext_vec.deep_view() == extensions_of(line@),
{
    let word = trim(line);
    let text = word.as_str();
    let len = text.unicode_len();
    let mut ext_vec: Vec<String> = Vec::new();
    let mut start: usize = 0;
    let mut i: usize = 0;
    assert(text@.take(0) =~= Seq::empty());
    assert(split_at_commas(text@.take(0)) =~= ext_vec.deep_view().push(
        text@.subrange(0, 0),
    ));
    for c in it: text.chars()
        invariant
            i == it.index(),
            it.seq() == text@,
            len == text@.len(),
            start <= i,
            split_at_commas(text@.take(i as int)) == ext_vec.deep_view().push(
                text@.subrange(start as int, i as int),
            ),
    {
        let ghost done = ext_vec.deep_view();
        let ghost piece = text@.subrange(start as int, i as int);
        assert(text@.take(i + 1).drop_last() =~= text@.take(i as int));
        assert(done.push(piece).drop_last() =~= done);
        if c == ',' {
            ext_vec.push(text.substring_char(start, i).to_owned());
            start = i + 1;
            assert(ext_vec.deep_view() =~= done.push(piece));
            assert(text@.subrange(start as int, i + 1) =~= Seq::empty());
        } else {
            assert(piece.push(c) =~= text@.subrange(start as int, i + 1));
        }
        i = i + 1;
    }
    let ghost done = ext_vec.deep_view();
    assert(text@.take(i as int) =~= text@);
    ext_vec.push(text.substring_char(start, len).to_owned());
    assert(ext_vec.deep_view() =~= done.push(text@.subrange(start as int, len as int)));
    ext_vec
}

/// The answer that the user's line gives to a yes/no question, if it gives
/// one.
pub fn parse_answer(line: &str) -> (answer: Option<bool>)
    ensures
        answer == answer_of(line@),
{
    let word = trim(line);
    if word.as_str().unicode_len() != 1 {
        None
    } else {
        let c = word.as_str().get_char(0);
        if c == 'y' || c == 'Y' {
            Some(true)
        } else if c == 'n' || c == 'N' {
            Some(false)
        } else {
            None
        }
    }
}

/// The pieces joined again, with a comma between each two.
pub open spec fn joined(pieces: Seq<Seq<char>>) -> Seq<char>
    decreases pieces.len(),
{
    if pieces.len() == 0 {
        Seq::empty()
    } else if pieces.len() == 1 {
        pieces[0]
    } else {
        joined(pieces.drop_last()) + seq![','] + pieces.last()
    }
}

/// Trimming takes white space away, at both ends, and nothing else: the text
/// is some white space, then the trimmed text, then some white space; and the
/// trimmed text neither begins nor ends with white space.
pub proof fn law_trimmed_is_the_inside(text: Seq<char>)
    ensures
        ({
            let lead = leading_space(text) as int;
            let trail = trailing_space(text.skip(lead)) as int;
            &&& lead + trail <= text.len()
            &&& trimmed(text) == text.subrange(lead, text.len() - trail)
            &&& forall|i: int| 0 <= i < lead ==> white_space(#[trigger] text[i])
            &&& forall|i: int| text.len() - trail <= i < text.len() ==> white_space(#[trigger] text[i])
            &&& trimmed(text).len() > 0 ==> !white_space(trimmed(text).first()) && !white_space(
                trimmed(text).last(),
            )
        }),
{
    let lead = leading_space(text) as int;
    lemma_leading_space_bound(text);
    let inner = text.skip(lead);
    let trail = trailing_space(inner) as int;
    lemma_trailing_space_bound(inner);
    assert(trimmed(text) =~= text.subrange(lead, text.len() - trail));
    assert forall|i: int| text.len() - trail <= i < text.len() implies white_space(
        #[trigger] text[i],
    ) by {
        assert(text[i] == inner[i - lead]);
    }
    if trimmed(text).len() > 0 {
        assert(trimmed(text).last() == inner[inner.len() - trail - 1]);
        if trail == inner.len() - 1 {
            assert(trimmed(text).last() == text[lead]);
        }
    }
}

/// Cutting at commas loses nothing and leaves no comma: no piece holds one,
/// there is at least one piece, and the pieces joined with commas are the
/// text again.
pub proof fn law_split_joins_back(text: Seq<char>)
    ensures
        split_at_commas(text).len() >= 1,
        joined(split_at_commas(text)) == text,
        forall|i: int, j: int|
            0 <= i < split_at_commas(text).len() && 0 <= j < split_at_commas(text)[i].len()
                ==> #[trigger] split_at_commas(text)[i][j] != ',',
    decreases text.len(),
{
    if text.len() == 0 {
        assert(joined(split_at_commas(text)) =~= text);
    } else {
        let before = split_at_commas(text.drop_last());
        law_split_joins_back(text.drop_last());
        let pieces = split_at_commas(text);
        if text.last() == ',' {
            assert(pieces.drop_last() =~= before);
            assert(joined(pieces) =~= text);
        } else {
            let grown = before.last().push(text.last());
            assert(pieces.last() == grown);
            if before.len() == 1 {
                assert(joined(before) == before[0]);
                assert(joined(pieces) =~= text);
            } else {
                assert(pieces.drop_last() =~= before.drop_last());
                assert(joined(pieces) =~= joined(before).push(text.last()));
                assert(joined(pieces) =~= text);
            }
            assert forall|i: int, j: int|
                0 <= i < pieces.len() && 0 <= j < pieces[i].len() implies #[trigger] pieces[i][j]
                != ',' by {
                if i < pieces.len() - 1 {
                    assert(pieces[i][j] == before[i][j]);
                } else if j < before.last().len() {
                    assert(pieces[i][j] == before[i][j]);
                }
            }
        }
    }
}

} // verus!
