//! The input of a run: a text with one URL to a line.

use vstd::prelude::*;
use vstd::string::*;

verus! {

/// Whether `char::is_whitespace` holds of the character: whether it has the
/// Unicode property `White_Space`.
pub uninterp spec fn is_white_space(c: char) -> bool;

/// Trusted: the result depends on the character alone.
pub assume_specification[ char::is_whitespace ](c: char) -> (white: bool)
    ensures
        white == is_white_space(c),
;

/// Trusted: `String::push` appends the character.
pub assume_specification[ String::push ](text: &mut String, c: char)
    ensures
        final(text)@ == old(text)@.push(c),
;

/// Whether the text holds nothing but white space.
pub open spec fn blank(text: Seq<char>) -> bool {
    forall|i: int| 0 <= i < text.len() ==> is_white_space(#[trigger] text[i])
}

/// The text without the white space at its start.
pub open spec fn trim_start(text: Seq<char>) -> Seq<char>
    decreases text.len(),
{
    if text.len() > 0 && is_white_space(text[0]) {
        trim_start(text.drop_first())
    } else {
        text
    }
}

/// The text without the white space at its end.
pub open spec fn trim_end(text: Seq<char>) -> Seq<char>
    decreases text.len(),
{
    if text.len() > 0 && is_white_space(text.last()) {
        trim_end(text.drop_last())
    } else {
        text
    }
}

/// The text without the white space at its start and at its end.
pub open spec fn trim(text: Seq<char>) -> Seq<char> {
    trim_end(trim_start(text))
}

/// The lines of a text: what stands between its line feeds. A text without
/// a line feed is one line, and a line feed at the end is followed by an
/// empty line.
pub open spec fn split_lines(text: Seq<char>) -> Seq<Seq<char>>
    decreases text.len(),
{
    if text.len() == 0 {
        seq![Seq::empty()]
    } else {
        let before = split_lines(text.drop_last());
        if text.last() == '\n' {
            before.push(Seq::empty())
        } else {
            before.drop_last().push(before.last().push(text.last()))
        }
    }
}

/// The lines joined again, with a line feed between each two.
pub open spec fn join_lines(lines: Seq<Seq<char>>) -> Seq<char>
    decreases lines.len(),
{
    if lines.len() == 0 {
        Seq::empty()
    } else if lines.len() == 1 {
        lines[0]
    } else {
        join_lines(lines.drop_last()).push('\n') + lines.last()
    }
}

/// The lines that are not blank, each without the white space around it,
/// in their order.
pub open spec fn trimmed_lines(lines: Seq<Seq<char>>) -> Seq<Seq<char>>
    decreases lines.len(),
{
    if lines.len() == 0 {
        Seq::empty()
    } else {
        let before = trimmed_lines(lines.drop_last());
        let line = trim(lines.last());
        if line.len() > 0 {
            before.push(line)
        } else {
            before
        }
    }
}

/// The URLs that a text lists: its lines without the blank ones, each
/// without the white space around it.
pub open spec fn listed(text: Seq<char>) -> Seq<Seq<char>> {
    trimmed_lines(split_lines(text))
}

/// Splitting loses nothing: the lines hold no line feed, there is at least
/// one, and joined again they give the text.
pub proof fn law_lines_join_to_text(text: Seq<char>)
    ensures
        split_lines(text).len() >= 1,
        forall|k: int, i: int|
            0 <= k < split_lines(text).len() && 0 <= i < split_lines(text)[k].len()
                ==> #[trigger] split_lines(text)[k][i] != '\n',
        join_lines(split_lines(text)) == text,
    decreases text.len(),
{
    if text.len() > 0 {
        let shorter = text.drop_last();
        law_lines_join_to_text(shorter);
        let before = split_lines(shorter);
        let lines = split_lines(text);
        if text.last() == '\n' {
            assert(lines.drop_last() =~= before);
        } else {
            if before.len() > 1 {
                assert(lines.drop_last() =~= before.drop_last());
                assert(join_lines(before) == join_lines(before.drop_last()).push('\n')
                    + before.last());
            }
            assert(shorter.push(text.last()) =~= text);
        }
    }
}

proof fn lemma_trim_start_core(text: Seq<char>) -> (i: int)
    ensures
        0 <= i <= text.len(),
        trim_start(text) == text.subrange(i, text.len() as int),
        forall|k: int| 0 <= k < i ==> is_white_space(#[trigger] text[k]),
        i < text.len() ==> !is_white_space(text[i]),
    decreases text.len(),
{
    if text.len() > 0 && is_white_space(text[0]) {
        let rest = text.drop_first();
        let i = lemma_trim_start_core(rest);
        assert forall|k: int| 0 <= k < i + 1 implies is_white_space(#[trigger] text[k]) by {
            if k > 0 {
                assert(text[k] == rest[k - 1]);
            }
        }
        i + 1
    } else {
        0
    }
}

proof fn lemma_trim_end_core(text: Seq<char>) -> (j: int)
    ensures
        0 <= j <= text.len(),
        trim_end(text) == text.subrange(0, j),
        forall|k: int| j <= k < text.len() ==> is_white_space(#[trigger] text[k]),
        0 < j ==> !is_white_space(text[j - 1]),
    decreases text.len(),
{
    if text.len() > 0 && is_white_space(text.last()) {
        let rest = text.drop_last();
        let j = lemma_trim_end_core(rest);
        assert forall|k: int| j <= k < text.len() implies is_white_space(#[trigger] text[k]) by {
            if k < rest.len() {
                assert(text[k] == rest[k]);
            }
        }
        j
    } else {
        text.len() as int
    }
}

/// Trimming keeps the stretch of the text from its first to its last
/// character that is no white space, and nothing else.
pub proof fn law_trim_keeps_the_core(text: Seq<char>)
    ensures
        exists|i: int, j: int|
            {
                &&& 0 <= i <= j <= text.len()
                &&& #[trigger] text.subrange(i, j) == trim(text)
                &&& forall|k: int| 0 <= k < i ==> is_white_space(#[trigger] text[k])
                &&& forall|k: int| j <= k < text.len() ==> is_white_space(#[trigger] text[k])
                &&& i < j ==> !is_white_space(text[i]) && !is_white_space(text[j - 1])
            },
{
    let i = lemma_trim_start_core(text);
    let tail = text.subrange(i, text.len() as int);
    let j = lemma_trim_end_core(tail);
    assert forall|k: int| i + j <= k < text.len() implies is_white_space(#[trigger] text[k]) by {
        assert(text[k] == tail[k - i]);
    }
    assert(text.subrange(i, i + j) == trim(text));
}

/// A text is blank exactly when nothing is left of it without the white
/// space at its start.
proof fn lemma_trim_start_blank(text: Seq<char>)
    ensures
        blank(text) <==> trim_start(text).len() == 0,
        trim_start(text).len() > 0 ==> !is_white_space(trim_start(text)[0]),
    decreases text.len(),
{
    if text.len() > 0 && is_white_space(text[0]) {
        let rest = text.drop_first();
        lemma_trim_start_blank(rest);
        if blank(rest) {
            assert forall|i: int| 0 <= i < text.len() implies is_white_space(
                #[trigger] text[i],
            ) by {
                if i > 0 {
                    assert(text[i] == rest[i - 1]);
                }
            }
        }
        if blank(text) {
            assert forall|i: int| 0 <= i < rest.len() implies is_white_space(
                #[trigger] rest[i],
            ) by {}
        }
    }
}

/// How one more character changes what is left without the white space at
/// the start.
proof fn lemma_trim_start_push(text: Seq<char>, c: char)
    ensures
        trim_start(text.push(c)) == if blank(text) {
            if is_white_space(c) {
                Seq::empty()
            } else {
                seq![c]
            }
        } else {
            trim_start(text).push(c)
        },
    decreases text.len(),
{
    let longer = text.push(c);
    lemma_trim_start_blank(text);
    if text.len() == 0 {
        assert(longer.drop_first() =~= Seq::<char>::empty());
        assert(trim_start(Seq::<char>::empty()) =~= Seq::<char>::empty());
    } else if is_white_space(text[0]) {
        let rest = text.drop_first();
        assert(longer.drop_first() =~= rest.push(c));
        lemma_trim_start_push(rest, c);
        lemma_trim_start_blank(rest);
    }
}

/// White space after a text that does not end in white space is all that
/// trimming the end takes away.
proof fn lemma_trim_end_gap(line: Seq<char>, gap: Seq<char>)
    requires
        blank(gap),
        line.len() > 0 ==> !is_white_space(line.last()),
    ensures
        trim_end(line + gap) == line,
    decreases gap.len(),
{
    if gap.len() > 0 {
        assert((line + gap).drop_last() =~= line + gap.drop_last());
        lemma_trim_end_gap(line, gap.drop_last());
    }
}

/// Reads the URLs that a text lists, one to a line: blank lines are left
/// out, and so is the white space around a URL.
pub fn read_lines(text: &str) -> (urls: Vec<String>)
    ensures
        urls.deep_view() == listed(text@),
        forall|k: int| 0 <= k < urls.len() ==> (#[trigger] urls[k])@.len() > 0,
{
    let mut urls: Vec<String> = Vec::new();
    let mut line = String::new();
    let mut gap = String::new();
    let ghost mut seen: Seq<char> = Seq::empty();
    for c in chars: text.chars()
        invariant
            chars.seq() == text@,
            seen == text@.take(chars.index() as int),
            urls.deep_view() == trimmed_lines(split_lines(seen).drop_last()),
            forall|k: int| 0 <= k < urls.len() ==> (#[trigger] urls[k])@.len() > 0,
            split_lines(seen).len() >= 1,
            trim_start(split_lines(seen).last()) == line@ + gap@,
            blank(gap@),
            line@.len() > 0 ==> !is_white_space(line@.last()),
            line@.len() == 0 ==> gap@.len() == 0,
    {
        let ghost lines = split_lines(seen);
        let ghost piece = lines.last();
        proof {
            lemma_trim_end_gap(line@, gap@);
            lemma_trim_start_push(piece, c);
            lemma_trim_start_blank(piece);
            seen = seen.push(c);
            assert(seen.drop_last() =~= text@.take(chars.index() as int));
        }
        if c == '\n' {
            if !line.as_str().is_empty() {
                urls.push(line);
            }
            line = String::new();
            gap = String::new();
            proof {
                assert(split_lines(seen).drop_last() =~= lines);
            }
        } else if c.is_whitespace() {
            if !line.as_str().is_empty() {
                gap.push(c);
            }
            proof {
                assert(split_lines(seen).drop_last() =~= lines.drop_last());
            }
        } else {
            line.append(gap.as_str());
            line.push(c);
            gap = String::new();
        }
    }
    proof {
        assert(seen =~= text@);
        lemma_trim_end_gap(line@, gap@);
    }
    if !line.as_str().is_empty() {
        urls.push(line);
    }
    urls
}

} // verus!
