//! Shader sources without what the graphics card does not need: comments and superfluous white
//! space.

use crate::text::{chars_of, split_lines, split_words};
use vstd::prelude::*;
use vstd::string::*;

verus! {

broadcast use vstd::string::group_string_axioms;

/// Whether two characters stand at a position of a text.
pub open spec fn stands_at(text: Seq<char>, at: int, first: char, second: char) -> bool {
    0 <= at && at + 1 < text.len() && text[at] == first && text[at + 1] == second
}

/// The source from `at` on without comments, where code stands at `at`. A comment is as good as a
/// space. There is none where a block comment does not end.
pub open spec fn code_from(text: Seq<char>, at: nat) -> Option<Seq<char>>
    decreases text.len() - at,
{
    if at >= text.len() {
        Some(Seq::empty())
    } else if stands_at(text, at as int, '/', '/') {
        preceded(' ', line_comment_from(text, at + 2))
    } else if stands_at(text, at as int, '/', '*') {
        preceded(' ', block_comment_from(text, at + 2, 1))
    } else {
        preceded(text[at as int], code_from(text, at + 1))
    }
}

/// The source from `at` on without comments, where a line comment stands at `at`: it ends before
/// the next line.
pub open spec fn line_comment_from(text: Seq<char>, at: nat) -> Option<Seq<char>>
    decreases text.len() - at,
{
    if at >= text.len() {
        Some(Seq::empty())
    } else if text[at as int] == '\n' {
        preceded('\n', code_from(text, at + 1))
    } else {
        line_comment_from(text, at + 1)
    }
}

/// The source from `at` on without comments, where a block comment stands at `at` that lies within
/// `depth - 1` others.
pub open spec fn block_comment_from(text: Seq<char>, at: nat, depth: nat) -> Option<Seq<char>>
    decreases text.len() - at,
{
    if at >= text.len() {
        None
    } else if stands_at(text, at as int, '/', '*') {
        block_comment_from(text, at + 2, depth + 1)
    } else if stands_at(text, at as int, '*', '/') {
        if depth <= 1 {
            code_from(text, at + 2)
        } else {
            block_comment_from(text, at + 2, (depth - 1) as nat)
        }
    } else {
        block_comment_from(text, at + 1, depth)
    }
}

/// A source with another character before it.
pub open spec fn preceded(character: char, rest: Option<Seq<char>>) -> Option<Seq<char>> {
    match rest {
        Some(rest) => Some(seq![character] + rest),
        None => None,
    }
}

/// What stands at a position of the source.
pub open spec fn rest_from(text: Seq<char>, at: nat, line_comment: bool, depth: nat) -> Option<
    Seq<char>,
> {
    if line_comment {
        line_comment_from(text, at)
    } else if depth > 0 {
        block_comment_from(text, at, depth)
    } else {
        code_from(text, at)
    }
}

/// A source after what is already written.
pub open spec fn appended(written: Seq<char>, rest: Option<Seq<char>>) -> Option<Seq<char>> {
    match rest {
        Some(rest) => Some(written + rest),
        None => None,
    }
}

/// Take the comments out of a source; there is no result where a block comment does not end.
pub fn try_strip_wgsl_comments(source: &str) -> (stripped: Option<String>)
    ensures
        crate::text::opt_text(stripped) == code_from(source@, 0),
{
    let text = chars_of(source);
    let count: usize = text.len();
    let mut output = String::new();
    let mut line_comment = false;
    let mut depth: usize = 0;
    let mut at: usize = 0;
    let ghost all = code_from(source@, 0);
    proof {
        if all is Some {
            assert(output@ + all->0 =~= all->0);
        }
    }
    while at < count
        invariant
            text@ == source@,
            count == text@.len(),
            at <= count,
            depth <= at,
            line_comment ==> depth == 0,
            all == code_from(source@, 0),
            all == appended(
                output@,
                rest_from(source@, at as nat, line_comment, depth as nat),
            ),
        decreases count - at,
    {
        let character: char = text[at];
        let next: Option<char> = if at + 1 < count {
            Some(text[at + 1])
        } else {
            None
        };
        let ghost before = output@;
        if line_comment {
            if character == '\n' {
                output.push(character);
                line_comment = false;
                proof {
                    let rest = code_from(source@, (at + 1) as nat);
                    if rest is Some {
                        assert(output@ + rest->0 =~= before + (seq!['\n'] + rest->0));
                    }
                }
            }
            at += 1;
            continue;
        }
        if depth > 0 {
            if character == '/' && next == Some('*') {
                at += 2;
                depth += 1;
            } else if character == '*' && next == Some('/') {
                at += 2;
                depth -= 1;
            } else {
                at += 1;
            }
            continue;
        }
        if character == '/' && next == Some('/') {
            output.push(' ');
            line_comment = true;
            proof {
                let rest = line_comment_from(source@, (at + 2) as nat);
                if rest is Some {
                    assert(output@ + rest->0 =~= before + (seq![' '] + rest->0));
                }
            }
            at += 2;
        } else if character == '/' && next == Some('*') {
            output.push(' ');
            depth = 1;
            proof {
                let rest = block_comment_from(source@, (at + 2) as nat, 1);
                if rest is Some {
                    assert(output@ + rest->0 =~= before + (seq![' '] + rest->0));
                }
            }
            at += 2;
        } else {
            output.push(character);
            proof {
                let rest = code_from(source@, (at + 1) as nat);
                if rest is Some {
                    assert(output@ + rest->0 =~= before + (seq![character] + rest->0));
                }
            }
            at += 1;
        }
    }
    if depth > 0 && !line_comment {
        return None;
    }
    assert(output@ + Seq::<char>::empty() =~= output@);
    Some(output)
}

/// Take the comments out of a source whose block comments end.
pub fn strip_wgsl_comments(source: &str) -> (stripped: String)
    requires
        code_from(source@, 0) is Some,
    ensures
        Some(stripped@) == code_from(source@, 0),
{
    match try_strip_wgsl_comments(source) {
        Some(stripped) => stripped,
        None => String::new(),
    }
}

/// The first `count` words with a space between them.
pub open spec fn spaced(words: Seq<Seq<char>>, count: int) -> Seq<char>
    decreases count,
{
    if count <= 0 {
        Seq::empty()
    } else if count == 1 {
        words[0]
    } else {
        spaced(words, count - 1) + seq![' '] + words[count - 1]
    }
}

/// A line with a single space between its words.
pub open spec fn minified_line(line: Seq<char>) -> Seq<char> {
    let words = crate::text::words(line, 0);
    spaced(words, words.len() as int)
}

/// The first `count` lines, without those that are blank.
pub open spec fn minified_lines(lines: Seq<Seq<char>>, count: int) -> Seq<char>
    decreases count,
{
    if count <= 0 {
        Seq::empty()
    } else {
        let before = minified_lines(lines, count - 1);
        if crate::text::words(lines[count - 1], 0).len() == 0 {
            before
        } else if before.len() == 0 {
            minified_line(lines[count - 1])
        } else {
            before + seq!['\n'] + minified_line(lines[count - 1])
        }
    }
}

/// A source without comments, blank lines, and more white space than is needed.
pub open spec fn minified(source: Seq<char>) -> Option<Seq<char>> {
    match code_from(source, 0) {
        Some(stripped) => {
            let lines = crate::text::lines(stripped, 0);
            Some(minified_lines(lines, lines.len() as int))
        },
        None => None,
    }
}

/// Append the words of a line with a space between them.
fn push_words(output: &mut String, words: &Vec<String>)
    ensures
        final(output)@ == old(output)@ + spaced(
            crate::text::texts(words@),
            words@.len() as int,
        ),
{
    let ghost all = crate::text::texts(words@);
    let mut index: usize = 0;
    assert(output@ =~= old(output)@ + spaced(all, 0));
    while index < words.len()
        invariant
            index <= words@.len(),
            all == crate::text::texts(words@),
            output@ == old(output)@ + spaced(all, index as int),
        decreases words@.len() - index,
    {
        assert(all[index as int] == words@[index as int]@);
        if index > 0 {
            output.push(' ');
        }
        output.append(words[index].as_str());
        index += 1;
        assert(output@ =~= old(output)@ + spaced(all, index as int));
    }
}

/// Make a source smaller; there is no result where a block comment does not end.
pub fn minify_wgsl(source: &str) -> (output: Option<String>)
    ensures
        crate::text::opt_text(output) == minified(source@),
{
    let stripped = match try_strip_wgsl_comments(source) {
        Some(stripped) => stripped,
        None => {
            return None;
        },
    };
    let lines = split_lines(stripped.as_str());
    let ghost all = crate::text::texts(lines@);
    let mut output = String::new();
    let mut empty = true;
    let mut index: usize = 0;
    assert(output@ =~= minified_lines(all, 0));
    while index < lines.len()
        invariant
            index <= lines@.len(),
            all == crate::text::texts(lines@),
            output@ == minified_lines(all, index as int),
            empty == (output@.len() == 0),
        decreases lines@.len() - index,
    {
        assert(all[index as int] == lines@[index as int]@);
        let words = split_words(lines[index].as_str());
        index += 1;
        if words.len() == 0 {
            assert(crate::text::texts(words@).len() == 0);
            continue;
        }
        let ghost before = output@;
        assert(crate::text::texts(words@).len() > 0);
        if !empty {
            output.push('\n');
        }
        push_words(&mut output, &words);
        empty = false;
        proof {
            words_are_filled(all[index - 1], 0);
            spaced_is_filled(crate::text::words(all[index - 1], 0), words@.len() as int);
            assert(output@ =~= minified_lines(all, index as int));
        }
    }
    Some(output)
}

proof fn words_are_filled(text: Seq<char>, from: int)
    requires
        0 <= from <= text.len(),
    ensures
        forall|i: int|
            0 <= i < crate::text::words(text, from).len() ==> (#[trigger] crate::text::words(
                text,
                from,
            )[i]).len() > 0,
    decreases text.len() - from,
{
    if from < text.len() {
        if crate::text::is_space(text[from]) {
            words_are_filled(text, from + 1);
            assert(crate::text::words(text, from) == crate::text::words(text, from + 1));
        } else {
            let end = crate::text::word_end(text, from);
            if from < end <= text.len() {
                words_are_filled(text, end);
                let all = crate::text::words(text, from);
                let rest = crate::text::words(text, end);
                assert forall|i: int| 0 <= i < all.len() implies (#[trigger] all[i]).len() > 0 by {
                    if i > 0 {
                        assert(all[i] == rest[i - 1]);
                    }
                }
            }
        }
    }
}

proof fn spaced_is_filled(words: Seq<Seq<char>>, count: int)
    requires
        0 < count <= words.len(),
        forall|i: int| 0 <= i < words.len() ==> (#[trigger] words[i]).len() > 0,
    ensures
        spaced(words, count).len() > 0,
    decreases count,
{
}

/// Whether no comment begins anywhere in a source.
pub open spec fn free_of_comments(text: Seq<char>) -> bool {
    forall|k: int|
        !(#[trigger] stands_at(text, k, '/', '/')) && !stands_at(text, k, '/', '*')
}

/// A source in which no comment begins is kept as it is.
pub proof fn source_without_comments_is_kept(text: Seq<char>, at: nat)
    requires
        at <= text.len(),
        free_of_comments(text),
    ensures
        code_from(text, at) == Some(text.subrange(at as int, text.len() as int)),
    decreases text.len() - at,
{
    if at < text.len() {
        assert(!stands_at(text, at as int, '/', '/'));
        source_without_comments_is_kept(text, at + 1);
        assert(text.subrange(at as int, text.len() as int) =~= seq![text[at as int]]
            + text.subrange(at as int + 1, text.len() as int));
    } else {
        assert(text.subrange(at as int, text.len() as int) =~= Seq::<char>::empty());
    }
}

/// No comment is left in a source whose comments have been taken out, so that doing it again
/// changes nothing.
pub proof fn comments_are_gone(text: Seq<char>)
    requires
        code_from(text, 0) is Some,
    ensures
        free_of_comments(code_from(text, 0)->0),
        code_from(code_from(text, 0)->0, 0) == code_from(text, 0),
{
    let stripped = code_from(text, 0)->0;
    code_is_free(text, 0);
    source_without_comments_is_kept(stripped, 0);
    assert(stripped.subrange(0, stripped.len() as int) =~= stripped);
}

proof fn code_is_free(text: Seq<char>, at: nat)
    requires
        code_from(text, at) is Some,
    ensures
        free_of_comments(code_from(text, at)->0),
        at < text.len() && code_from(text, at)->0.len() > 0 ==> code_from(text, at)->0[0] == ' '
            || code_from(text, at)->0[0] == text[at as int],
        at >= text.len() ==> code_from(text, at)->0.len() == 0,
    decreases text.len() - at,
{
    if at < text.len() {
        let all = code_from(text, at)->0;
        let rest = if stands_at(text, at as int, '/', '/') {
            line_comment_is_free(text, at + 2);
            line_comment_from(text, at + 2)->0
        } else if stands_at(text, at as int, '/', '*') {
            block_comment_is_free(text, at + 2, 1);
            block_comment_from(text, at + 2, 1)->0
        } else {
            code_is_free(text, at + 1);
            code_from(text, at + 1)->0
        };
        assert(all =~= seq![all[0]] + rest);
        assert forall|k: int|
            !(#[trigger] stands_at(all, k, '/', '/')) && !stands_at(all, k, '/', '*') by {
            if k > 0 {
                assert(!stands_at(rest, k - 1, '/', '/'));
                assert(!stands_at(rest, k - 1, '/', '*'));
            }
        }
    }
}

proof fn line_comment_is_free(text: Seq<char>, at: nat)
    requires
        line_comment_from(text, at) is Some,
    ensures
        free_of_comments(line_comment_from(text, at)->0),
    decreases text.len() - at,
{
    if at < text.len() {
        if text[at as int] == '\n' {
            code_is_free(text, at + 1);
            let all = line_comment_from(text, at)->0;
            let rest = code_from(text, at + 1)->0;
            assert(all =~= seq!['\n'] + rest);
            assert forall|k: int|
                !(#[trigger] stands_at(all, k, '/', '/')) && !stands_at(all, k, '/', '*') by {
                if k > 0 {
                    assert(!stands_at(rest, k - 1, '/', '/'));
                }
            }
        } else {
            line_comment_is_free(text, at + 1);
        }
    }
}

proof fn block_comment_is_free(text: Seq<char>, at: nat, depth: nat)
    requires
        block_comment_from(text, at, depth) is Some,
    ensures
        free_of_comments(block_comment_from(text, at, depth)->0),
    decreases text.len() - at,
{
    if at < text.len() {
        if stands_at(text, at as int, '/', '*') {
            block_comment_is_free(text, at + 2, depth + 1);
        } else if stands_at(text, at as int, '*', '/') {
            if depth <= 1 {
                code_is_free(text, at + 2);
            } else {
                block_comment_is_free(text, at + 2, (depth - 1) as nat);
            }
        } else {
            block_comment_is_free(text, at + 1, depth);
        }
    }
}

/// The words of the first `count` lines.
pub open spec fn words_of_lines(lines: Seq<Seq<char>>, count: int) -> Seq<Seq<char>>
    decreases count,
{
    if count <= 0 {
        Seq::empty()
    } else {
        words_of_lines(lines, count - 1) + crate::text::words(lines[count - 1], 0)
    }
}

/// Whether a text is a word: not empty, and free of white space.
pub open spec fn is_word(text: Seq<char>) -> bool {
    &&& text.len() > 0
    &&& forall|i: int| 0 <= i < text.len() ==> !crate::text::is_space(#[trigger] text[i])
}

proof fn spaced_words_are_kept(words: Seq<Seq<char>>, count: int)
    requires
        0 <= count <= words.len(),
        forall|i: int| 0 <= i < words.len() ==> is_word(#[trigger] words[i]),
    ensures
        crate::text::words(spaced(words, count), 0) == words.take(count),
    decreases count,
{
    if count == 0 {
        assert(words.take(0) =~= Seq::<Seq<char>>::empty());
    } else {
        let last = words[count - 1];
        assert(is_word(last));
        crate::text::white_space_separates_words(last, ' ', Seq::empty());
        assert(words.take(count) =~= words.take(count - 1) + seq![last]);
        if count == 1 {
            assert(words.take(1) =~= seq![last]);
        } else {
            spaced_words_are_kept(words, count - 1);
            crate::text::white_space_separates_words(spaced(words, count - 1), ' ', last);
        }
    }
}

/// Making a source smaller keeps its words and their order: a shorter source says what the longer one
/// said.
pub proof fn minified_lines_keep_their_words(lines: Seq<Seq<char>>, count: int)
    requires
        0 <= count <= lines.len(),
    ensures
        crate::text::words(minified_lines(lines, count), 0) == words_of_lines(lines, count),
    decreases count,
{
    if count > 0 {
        let before = minified_lines(lines, count - 1);
        let line = lines[count - 1];
        let words = crate::text::words(line, 0);
        minified_lines_keep_their_words(lines, count - 1);
        assert forall|i: int| 0 <= i < words.len() implies is_word(#[trigger] words[i]) by {
            crate::text::words_hold_no_white_space(line, 0, i);
        }
        spaced_words_are_kept(words, words.len() as int);
        assert(words.take(words.len() as int) =~= words);
        if words.len() == 0 {
            assert(words_of_lines(lines, count) =~= words_of_lines(lines, count - 1));
        } else if before.len() == 0 {
            assert(before =~= Seq::empty());
            crate::text::white_space_separates_words(before, ' ', before);
            assert(words_of_lines(lines, count) =~= words);
        } else {
            crate::text::white_space_separates_words(before, '\n', minified_line(line));
        }
    }
}

} // verus!
