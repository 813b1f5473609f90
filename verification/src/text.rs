//! Text as a sequence of characters.

use vstd::prelude::*;
use vstd::string::*;

verus! {

broadcast use vstd::string::group_string_axioms;

/// The texts of a list of strings.
pub open spec fn texts(strings: Seq<String>) -> Seq<Seq<char>> {
    strings.map_values(|string: String| string@)
}

/// The text of an optional string.
pub open spec fn opt_text(string: Option<String>) -> Option<Seq<char>> {
    match string {
        Some(string) => Some(string@),
        None => None,
    }
}

/// Whether `text` begins with `prefix`.
pub open spec fn begins_with(text: Seq<char>, prefix: Seq<char>) -> bool {
    prefix.len() <= text.len() && text.subrange(0, prefix.len() as int) == prefix
}

/// `text` without its first `count` characters.
pub open spec fn without_first(text: Seq<char>, count: int) -> Seq<char> {
    text.subrange(count, text.len() as int)
}

/// `String::push` appends a character.
pub assume_specification[ String::push ](string: &mut String, character: char)
    ensures
        final(string)@ == old(string)@.push(character),
;

/// The characters of a string.
pub fn chars_of(string: &str) -> (chars: Vec<char>)
    ensures
        chars@ == string@,
{
    let mut chars: Vec<char> = Vec::new();
    for character in it: string.chars()
        invariant
            chars@ == string@.take(it.index() as int),
            it.seq() == string@,
    {
        chars.push(character);
        assert(chars@ =~= string@.take(it.index() + 1));
    }
    assert(string@.take(string@.len() as int) =~= string@);
    chars
}

/// The string of some of the characters of a list.
pub fn string_of(chars: &Vec<char>, start: usize, end: usize) -> (string: String)
    requires
        start <= end <= chars@.len(),
    ensures
        string@ == chars@.subrange(start as int, end as int),
{
    let mut string = String::new();
    let mut i: usize = start;
    assert(string@ =~= chars@.subrange(start as int, i as int));
    while i < end
        invariant
            start <= i <= end <= chars@.len(),
            string@ == chars@.subrange(start as int, i as int),
        decreases end - i,
    {
        string.push(chars[i]);
        i += 1;
        assert(string@ =~= chars@.subrange(start as int, i as int));
    }
    string
}

/// Whether two strings have the same text.
pub fn same_text(a: &str, b: &str) -> (same: bool)
    ensures
        same == (a@ == b@),
{
    let left = chars_of(a);
    let right = chars_of(b);
    if left.len() != right.len() {
        return false;
    }
    let mut i: usize = 0;
    while i < left.len()
        invariant
            left@ == a@,
            right@ == b@,
            left@.len() == right@.len(),
            i <= left@.len(),
            forall|k: int| 0 <= k < i ==> left@[k] == right@[k],
        decreases left@.len() - i,
    {
        if left[i] != right[i] {
            assert(left@[i as int] != right@[i as int]);
            return false;
        }
        i += 1;
    }
    assert(a@ =~= b@);
    true
}

/// Whether a string begins with a prefix.
pub fn starts_with(string: &str, prefix: &str) -> (starts: bool)
    ensures
        starts == begins_with(string@, prefix@),
{
    let text = chars_of(string);
    let start = chars_of(prefix);
    if start.len() > text.len() {
        return false;
    }
    let mut i: usize = 0;
    while i < start.len()
        invariant
            text@ == string@,
            start@ == prefix@,
            start@.len() <= text@.len(),
            i <= start@.len(),
            forall|k: int| 0 <= k < i ==> text@[k] == start@[k],
        decreases start@.len() - i,
    {
        if text[i] != start[i] {
            assert(string@.subrange(0, prefix@.len() as int)[i as int] != prefix@[i as int]);
            return false;
        }
        i += 1;
    }
    assert(string@.subrange(0, prefix@.len() as int) =~= prefix@);
    true
}

/// The rest of a string after a prefix that it begins with.
pub fn strip_prefix(string: &str, prefix: &str) -> (rest: Option<String>)
    ensures
        begins_with(string@, prefix@) ==> rest is Some && rest->0@ == without_first(
            string@,
            prefix@.len() as int,
        ),
        !begins_with(string@, prefix@) ==> rest is None,
{
    if starts_with(string, prefix) {
        let text = chars_of(string);
        let start = chars_of(prefix);
        Some(string_of(&text, start.len(), text.len()))
    } else {
        None
    }
}

/// The concatenation of two strings.
pub fn join(first: &str, second: &str) -> (joined: String)
    ensures
        joined@ == first@ + second@,
{
    let mut joined: String = first.to_owned();
    joined.append(second);
    joined
}

/// The position of the first occurrence of a character from `from` on.
pub open spec fn first_at(text: Seq<char>, character: char, from: int) -> Option<int>
    decreases text.len() - from,
{
    if from < 0 || from >= text.len() {
        None
    } else if text[from] == character {
        Some(from)
    } else {
        first_at(text, character, from + 1)
    }
}

/// Find the first occurrence of a character from `from` on.
pub fn find(text: &Vec<char>, character: char, from: usize) -> (position: Option<usize>)
    requires
        from <= text@.len(),
    ensures
        match (position, first_at(text@, character, from as int)) {
            (Some(found), Some(expected)) => found == expected && from <= found < text@.len()
                && text@[found as int] == character,
            (None, None) => true,
            _ => false,
        },
{
    let mut i: usize = from;
    while i < text.len()
        invariant
            from <= i <= text@.len(),
            first_at(text@, character, from as int) == first_at(text@, character, i as int),
        decreases text@.len() - i,
    {
        if text[i] == character {
            return Some(i);
        }
        i += 1;
    }
    None
}

/// The strings from position `from` on.
pub fn strings_from(strings: &Vec<String>, from: usize) -> (rest: Vec<String>)
    requires
        from <= strings@.len(),
    ensures
        texts(rest@) == texts(strings@).subrange(from as int, strings@.len() as int),
{
    let mut rest: Vec<String> = Vec::new();
    let mut i: usize = from;
    assert(texts(rest@) =~= texts(strings@).subrange(from as int, i as int));
    while i < strings.len()
        invariant
            from <= i <= strings@.len(),
            texts(rest@) == texts(strings@).subrange(from as int, i as int),
        decreases strings@.len() - i,
    {
        let ghost before = rest@;
        rest.push(strings[i].clone());
        i += 1;
        assert(texts(rest@) =~= texts(before).push(strings@[i - 1]@));
        assert(texts(rest@) =~= texts(strings@).subrange(from as int, i as int));
    }
    rest
}

/// Whether a character has the Unicode property `White_Space`.
pub open spec fn is_space(character: char) -> bool {
    ||| '\u{9}' <= character <= '\u{d}'
    ||| character == ' '
    ||| character == '\u{85}'
    ||| character == '\u{a0}'
    ||| character == '\u{1680}'
    ||| '\u{2000}' <= character <= '\u{200a}'
    ||| character == '\u{2028}'
    ||| character == '\u{2029}'
    ||| character == '\u{202f}'
    ||| character == '\u{205f}'
    ||| character == '\u{3000}'
}

/// `char::is_whitespace`: whether a character has the Unicode property `White_Space`. The
/// characters that have it are those of [`is_space`].
pub assume_specification[ char::is_whitespace ](character: char) -> (space: bool)
    ensures
        space == is_space(character),
;

/// The end of the word that starts at `from`: the first white space, or the end of the text.
pub open spec fn word_end(text: Seq<char>, from: int) -> int
    decreases text.len() - from,
{
    if from < 0 || from >= text.len() || is_space(text[from]) {
        from
    } else {
        word_end(text, from + 1)
    }
}

/// The words of a text from `from` on, which are separated by white space.
pub open spec fn words(text: Seq<char>, from: int) -> Seq<Seq<char>>
    decreases text.len() - from,
{
    if from < 0 || from >= text.len() {
        Seq::empty()
    } else if is_space(text[from]) {
        words(text, from + 1)
    } else if from < word_end(text, from) <= text.len() {
        seq![text.subrange(from, word_end(text, from))] + words(text, word_end(text, from))
    } else {
        Seq::empty()
    }
}

proof fn word_end_is_later(text: Seq<char>, from: int)
    requires
        0 <= from <= text.len(),
    ensures
        from <= word_end(text, from) <= text.len(),
        from < text.len() && !is_space(text[from]) ==> from < word_end(text, from),
    decreases text.len() - from,
{
    if from < text.len() && !is_space(text[from]) {
        word_end_is_later(text, from + 1);
    }
}

/// Split a text at white space.
pub fn split_words(string: &str) -> (parts: Vec<String>)
    ensures
        texts(parts@) == words(string@, 0),
{
    let chars = chars_of(string);
    let mut parts: Vec<String> = Vec::new();
    let mut index: usize = 0;
    assert(texts(parts@) + words(chars@, 0) =~= words(chars@, 0));
    while index < chars.len()
        invariant
            chars@ == string@,
            index <= chars@.len(),
            texts(parts@) + words(chars@, index as int) == words(chars@, 0),
        decreases chars@.len() - index,
    {
        if chars[index].is_whitespace() {
            index += 1;
            continue;
        }
        let start: usize = index;
        proof {
            word_end_is_later(chars@, start as int);
        }
        while index < chars.len() && !chars[index].is_whitespace()
            invariant
                start <= index <= chars@.len(),
                word_end(chars@, start as int) == word_end(chars@, index as int),
            decreases chars@.len() - index,
        {
            index += 1;
        }
        assert(index == word_end(chars@, start as int));
        let ghost before = texts(parts@);
        let word = string_of(&chars, start, index);
        parts.push(word);
        assert(texts(parts@) =~= before.push(chars@.subrange(start as int, index as int)));
        assert(texts(parts@) + words(chars@, index as int) =~= before + words(
            chars@,
            start as int,
        ));
    }
    assert(texts(parts@) + words(chars@, index as int) =~= texts(parts@));
    parts
}

/// A text without the white space at its ends.
pub open spec fn is_trimmed(trimmed: Seq<char>, text: Seq<char>, start: int, end: int) -> bool {
    &&& 0 <= start <= end <= text.len()
    &&& trimmed == text.subrange(start, end)
    &&& forall|i: int| 0 <= i < start ==> is_space(#[trigger] text[i])
    &&& forall|i: int| end <= i < text.len() ==> is_space(#[trigger] text[i])
    &&& start < end ==> !is_space(text[start]) && !is_space(text[end - 1])
}

/// Take the white space at the ends of a text away.
pub fn trim(string: &str) -> (trimmed: String)
    ensures
        exists|start: int, end: int| #[trigger] is_trimmed(trimmed@, string@, start, end),
{
    let chars = chars_of(string);
    let mut start: usize = 0;
    while start < chars.len() && chars[start].is_whitespace()
        invariant
            chars@ == string@,
            start <= chars@.len(),
            forall|i: int| 0 <= i < start ==> is_space(#[trigger] chars@[i]),
        decreases chars@.len() - start,
    {
        start += 1;
    }
    let mut end: usize = chars.len();
    while end > start && chars[end - 1].is_whitespace()
        invariant
            chars@ == string@,
            start <= end <= chars@.len(),
            forall|i: int| end <= i < chars@.len() ==> is_space(#[trigger] chars@[i]),
        decreases end,
    {
        end -= 1;
    }
    let trimmed = string_of(&chars, start, end);
    assert(is_trimmed(trimmed@, string@, start as int, end as int));
    trimmed
}

/// Whether a text is not after another one, character by character.
pub open spec fn not_after(first: Seq<char>, second: Seq<char>) -> bool
    decreases first.len(),
{
    if first.len() == 0 {
        true
    } else if second.len() == 0 {
        false
    } else if first[0] != second[0] {
        first[0] < second[0]
    } else {
        not_after(without_first(first, 1), without_first(second, 1))
    }
}

/// Whether a text is not after another one, character by character.
pub fn is_not_after(first: &str, second: &str) -> (ordered: bool)
    ensures
        ordered == not_after(first@, second@),
{
    let left = chars_of(first);
    let right = chars_of(second);
    let mut index: usize = 0;
    assert(without_first(left@, 0) =~= first@);
    assert(without_first(right@, 0) =~= second@);
    while index < left.len()
        invariant
            index <= left@.len(),
            index <= right@.len(),
            not_after(first@, second@) == not_after(
                without_first(left@, index as int),
                without_first(right@, index as int),
            ),
        decreases left@.len() - index,
    {
        if index >= right.len() {
            return false;
        }
        if left[index] != right[index] {
            return left[index] < right[index];
        }
        assert(without_first(without_first(left@, index as int), 1) =~= without_first(
            left@,
            index + 1,
        ));
        assert(without_first(without_first(right@, index as int), 1) =~= without_first(
            right@,
            index + 1,
        ));
        index += 1;
    }
    true
}

/// Whether a string is among some.
pub fn contains_text(strings: &Vec<String>, wanted: &str) -> (found: bool)
    ensures
        found == texts(strings@).contains(wanted@),
{
    let mut index: usize = 0;
    while index < strings.len()
        invariant
            index <= strings@.len(),
            forall|i: int| 0 <= i < index ==> texts(strings@)[i] != wanted@,
        decreases strings@.len() - index,
    {
        assert(texts(strings@)[index as int] == strings@[index as int]@);
        if same_text(strings[index].as_str(), wanted) {
            return true;
        }
        index += 1;
    }
    false
}

/// A number in decimal digits.
pub open spec fn decimal(number: nat) -> Seq<char>
    decreases number,
{
    if number < 10 {
        seq![(number + '0' as nat) as char]
    } else {
        decimal(number / 10).push((number % 10 + '0' as nat) as char)
    }
}

/// Write a number in decimal digits.
pub fn write_decimal(number: u64) -> (text: String)
    ensures
        text@ == decimal(number as nat),
    decreases number,
{
    if number < 10 {
        let mut text = String::new();
        text.push(digit_char(number));
        assert(text@ =~= decimal(number as nat));
        text
    } else {
        let mut text = write_decimal(number / 10);
        text.push(digit_char(number % 10));
        text
    }
}

/// The character of a digit.
fn digit_char(digit: u64) -> (character: char)
    requires
        digit < 10,
    ensures
        character == (digit as nat + '0' as nat) as char,
{
    (digit as u8 + 48) as char
}

/// Different numbers have different digits.
pub proof fn decimal_is_injective(first: nat, second: nat)
    requires
        decimal(first) == decimal(second),
    ensures
        first == second,
    decreases first,
{
    assert(decimal(first).len() >= 1 && decimal(second).len() >= 1) by {
        decimal_is_long(first);
        decimal_is_long(second);
    }
    assert(decimal(first).last() == (first % 10 + '0' as nat) as char);
    assert(decimal(second).last() == (second % 10 + '0' as nat) as char);
    if first >= 10 {
        decimal_is_long(first);
        assert(second >= 10);
        assert(decimal(first).drop_last() =~= decimal(first / 10));
        assert(decimal(second).drop_last() =~= decimal(second / 10));
        decimal_is_injective(first / 10, second / 10);
    } else {
        decimal_is_long(second);
    }
}

proof fn decimal_is_long(number: nat)
    ensures
        decimal(number).len() >= 1,
        number >= 10 ==> decimal(number).len() >= 2,
    decreases number,
{
    if number >= 10 {
        decimal_is_long(number / 10);
    }
}

/// A line without the carriage return at its end.
pub open spec fn without_return(line: Seq<char>) -> Seq<char> {
    if line.len() > 0 && line.last() == '\r' {
        line.drop_last()
    } else {
        line
    }
}

/// The lines of a text from `from` on. A line ends with a line feed, or a carriage return and a
/// line feed, which do not belong to it; the last line may lack it.
pub open spec fn lines(text: Seq<char>, from: int) -> Seq<Seq<char>>
    decreases text.len() - from,
{
    if from < 0 || from >= text.len() {
        Seq::empty()
    } else {
        match first_at(text, '\n', from) {
            Some(end) => if from <= end < text.len() {
                seq![without_return(text.subrange(from, end))] + lines(text, end + 1)
            } else {
                Seq::empty()
            },
            None => seq![text.subrange(from, text.len() as int)],
        }
    }
}

/// Split a text into lines.
pub fn split_lines(string: &str) -> (parts: Vec<String>)
    ensures
        texts(parts@) == lines(string@, 0),
{
    let chars = chars_of(string);
    let mut parts: Vec<String> = Vec::new();
    let mut index: usize = 0;
    assert(texts(parts@) + lines(chars@, 0) =~= lines(chars@, 0));
    while index < chars.len()
        invariant
            chars@ == string@,
            index <= chars@.len(),
            texts(parts@) + lines(chars@, index as int) == lines(chars@, 0),
        decreases chars@.len() - index,
    {
        let ghost before = texts(parts@);
        match find(&chars, '\n', index) {
            Some(end) => {
                let mut stop: usize = end;
                if end > index && chars[end - 1] == '\r' {
                    stop = end - 1;
                }
                let line = string_of(&chars, index, stop);
                assert(line@ =~= without_return(chars@.subrange(index as int, end as int)));
                parts.push(line);
                assert(texts(parts@) =~= before.push(line@));
                assert(texts(parts@) + lines(chars@, end + 1) =~= before + lines(
                    chars@,
                    index as int,
                ));
                index = end + 1;
            },
            None => {
                let line = string_of(&chars, index, chars.len());
                parts.push(line);
                assert(texts(parts@) =~= before.push(line@));
                assert(lines(chars@, chars@.len() as int) == Seq::<Seq<char>>::empty());
                assert(texts(parts@) + lines(chars@, chars@.len() as int) =~= before + lines(
                    chars@,
                    index as int,
                ));
                index = chars.len();
            },
        }
    }
    assert(texts(parts@) + lines(chars@, index as int) =~= texts(parts@));
    parts
}

/// The part of a text between separators `n - 1` and `n`: nothing where there are fewer of them.
pub open spec fn field(text: Seq<char>, separator: char, n: nat) -> Seq<char>
    decreases n,
{
    match first_at(text, separator, 0) {
        Some(at) => if n == 0 {
            text.take(at)
        } else {
            field(without_first(text, at + 1), separator, (n - 1) as nat)
        },
        None => if n == 0 {
            text
        } else {
            Seq::empty()
        },
    }
}

proof fn first_at_shifts(text: Seq<char>, character: char, start: int, from: int)
    requires
        0 <= start <= from <= text.len(),
    ensures
        first_at(without_first(text, start), character, from - start) == match first_at(
            text,
            character,
            from,
        ) {
            Some(at) => Some(at - start),
            None => None,
        },
    decreases text.len() - from,
{
    if from < text.len() && text[from] != character {
        first_at_shifts(text, character, start, from + 1);
    }
}

/// The part of a text between separators `n - 1` and `n`.
pub fn field_of(string: &str, separator: char, n: usize) -> (part: String)
    ensures
        part@ == field(string@, separator, n as nat),
{
    let chars = chars_of(string);
    let count: usize = chars.len();
    let mut start: usize = 0;
    let mut left: usize = n;
    assert(without_first(chars@, 0) =~= string@);
    while left > 0
        invariant
            chars@ == string@,
            count == chars@.len(),
            start <= chars@.len(),
            field(string@, separator, n as nat) == field(
                without_first(chars@, start as int),
                separator,
                left as nat,
            ),
        decreases left,
    {
        proof {
            first_at_shifts(chars@, separator, start as int, start as int);
        }
        match find(&chars, separator, start) {
            Some(at) => {
                assert(without_first(without_first(chars@, start as int), at - start + 1)
                    =~= without_first(chars@, at + 1));
                start = at + 1;
                left -= 1;
            },
            None => {
                return String::new();
            },
        }
    }
    proof {
        first_at_shifts(chars@, separator, start as int, start as int);
    }
    match find(&chars, separator, start) {
        Some(at) => {
            assert(without_first(chars@, start as int).take(at - start) =~= chars@.subrange(
                start as int,
                at as int,
            ));
            string_of(&chars, start, at)
        },
        None => string_of(&chars, start, count),
    }
}

/// The parts of a text from `from` on that lie between separators, without the empty ones.
pub open spec fn filled_parts(text: Seq<char>, separator: char, from: int) -> Seq<Seq<char>>
    decreases text.len() - from,
{
    if from < 0 || from >= text.len() {
        Seq::empty()
    } else {
        match first_at(text, separator, from) {
            Some(end) => if end == from {
                filled_parts(text, separator, from + 1)
            } else if from < end < text.len() {
                seq![text.subrange(from, end)] + filled_parts(text, separator, end + 1)
            } else {
                Seq::empty()
            },
            None => seq![text.subrange(from, text.len() as int)],
        }
    }
}

/// Split a text at separators, leaving empty parts out.
pub fn split_filled(string: &str, separator: char) -> (parts: Vec<String>)
    ensures
        texts(parts@) == filled_parts(string@, separator, 0),
{
    let chars = chars_of(string);
    let mut parts: Vec<String> = Vec::new();
    let mut index: usize = 0;
    assert(texts(parts@) + filled_parts(chars@, separator, 0) =~= filled_parts(
        chars@,
        separator,
        0,
    ));
    while index < chars.len()
        invariant
            chars@ == string@,
            index <= chars@.len(),
            texts(parts@) + filled_parts(chars@, separator, index as int) == filled_parts(
                chars@,
                separator,
                0,
            ),
        decreases chars@.len() - index,
    {
        let ghost before = texts(parts@);
        match find(&chars, separator, index) {
            Some(end) => {
                if end > index {
                    let part = string_of(&chars, index, end);
                    parts.push(part);
                    assert(texts(parts@) =~= before.push(part@));
                }
                assert(texts(parts@) + filled_parts(chars@, separator, end + 1) =~= before
                    + filled_parts(chars@, separator, index as int));
                index = end + 1;
            },
            None => {
                let part = string_of(&chars, index, chars.len());
                parts.push(part);
                assert(texts(parts@) =~= before.push(part@));
                assert(filled_parts(chars@, separator, chars@.len() as int) == Seq::<
                    Seq<char>,
                >::empty());
                assert(texts(parts@) + filled_parts(chars@, separator, chars@.len() as int)
                    =~= before + filled_parts(chars@, separator, index as int));
                index = chars.len();
            },
        }
    }
    assert(texts(parts@) + filled_parts(chars@, separator, index as int) =~= texts(parts@));
    parts
}

/// What bytes say as text, where those that are not valid UTF-8 are replaced.
pub uninterp spec fn lossy_text(bytes: Seq<u8>) -> Seq<char>;

/// `String::from_utf8_lossy`: the text of some bytes, with replacement characters in place of what
/// is not valid UTF-8. It depends on the bytes alone, and valid UTF-8 is kept as it is.
#[verifier::external_body]
pub(crate) fn text_lossy(bytes: &[u8]) -> (text: String)
    ensures
        text@ == lossy_text(bytes@),
        vstd::utf8::valid_utf8(bytes@) ==> text@ == vstd::utf8::decode_utf8(bytes@),
{
    String::from_utf8_lossy(bytes).into_owned()
}

/// `String::from_utf8`: the text of bytes that are valid UTF-8, and nothing for others.
#[verifier::external_body]
pub(crate) fn text_of_utf8(bytes: Vec<u8>) -> (text: Option<String>)
    ensures
        text is Some <==> vstd::utf8::valid_utf8(bytes@),
        text matches Some(text) ==> text@ == vstd::utf8::decode_utf8(bytes@),
{
    String::from_utf8(bytes).ok()
}

/// The UTF-8 bytes of a text.
pub fn bytes_of(string: &str) -> (bytes: Vec<u8>)
    ensures
        bytes@ == vstd::utf8::encode_utf8(string@),
{
    let mut bytes: Vec<u8> = Vec::new();
    bytes.extend_from_slice(string.as_bytes());
    assert(bytes@ =~= vstd::utf8::encode_utf8(string@));
    bytes
}

/// The first occurrence of a character is where it stands and has not stood before; there is none
/// where the character does not stand.
pub proof fn first_occurrence_is_found(text: Seq<char>, character: char, from: int)
    requires
        0 <= from <= text.len(),
    ensures
        match first_at(text, character, from) {
            Some(at) => {
                &&& from <= at < text.len()
                &&& text[at] == character
                &&& forall|i: int| from <= i < at ==> #[trigger] text[i] != character
            },
            None => forall|i: int| from <= i < text.len() ==> #[trigger] text[i] != character,
        },
    decreases text.len() - from,
{
    if from < text.len() && text[from] != character {
        first_occurrence_is_found(text, character, from + 1);
    }
}

/// A separator ends the part before it.
proof fn separator_ends_the_part(part: Seq<char>, separator: char, rest: Seq<char>)
    requires
        !part.contains(separator),
    ensures
        first_at(part + seq![separator] + rest, separator, 0) == Some(part.len() as int),
        first_at(part, separator, 0) is None,
        without_first(part + seq![separator] + rest, part.len() as int + 1) == rest,
        (part + seq![separator] + rest).take(part.len() as int) == part,
{
    let text = part + seq![separator] + rest;
    first_occurrence_is_found(text, separator, 0);
    first_occurrence_is_found(part, separator, 0);
    assert(text[part.len() as int] == separator);
    assert forall|i: int| 0 <= i < part.len() implies #[trigger] text[i] != separator by {
        assert(text[i] == part[i]);
    }
    assert(without_first(text, part.len() as int + 1) =~= rest);
    assert(text.take(part.len() as int) =~= part);
}

/// Fields are what stands between separators: the first one stands before the first separator, and
/// the others are those of what follows it.
pub proof fn fields_stand_between_separators(
    part: Seq<char>,
    separator: char,
    rest: Seq<char>,
    n: nat,
)
    requires
        !part.contains(separator),
    ensures
        field(part + seq![separator] + rest, separator, 0) == part,
        field(part + seq![separator] + rest, separator, n + 1) == field(rest, separator, n),
        field(part, separator, 0) == part,
        field(part, separator, n + 1) == Seq::<char>::empty(),
{
    separator_ends_the_part(part, separator, rest);
}

proof fn lines_shift(text: Seq<char>, start: int, from: int)
    requires
        0 <= start <= from <= text.len(),
    ensures
        lines(without_first(text, start), from - start) == lines(text, from),
    decreases text.len() - from,
{
    let later = without_first(text, start);
    if from < text.len() {
        first_at_shifts(text, '\n', start, from);
        first_occurrence_is_found(text, '\n', from);
        match first_at(text, '\n', from) {
            Some(end) => {
                lines_shift(text, start, end + 1);
                assert(later.subrange(from - start, end - start) =~= text.subrange(from, end));
            },
            None => {
                assert(later.subrange(from - start, later.len() as int) =~= text.subrange(
                    from,
                    text.len() as int,
                ));
            },
        }
    }
}

/// Lines are what stands before line feeds: the first one stands before the first line feed, without
/// the carriage return that may belong to it, and the others are those of what follows it.
pub proof fn lines_stand_before_line_feeds(line: Seq<char>, rest: Seq<char>)
    requires
        !line.contains('\n'),
        line.len() > 0 ==> line.last() != '\r',
    ensures
        lines(line + seq!['\n'] + rest, 0) == seq![line] + lines(rest, 0),
        lines(line.push('\r') + seq!['\n'] + rest, 0) == seq![line] + lines(rest, 0),
        line.len() > 0 ==> lines(line, 0) == seq![line],
        lines(Seq::empty(), 0) == Seq::<Seq<char>>::empty(),
{
    let ended = line.push('\r');
    assert(!ended.contains('\n'));
    separator_ends_the_part(line, '\n', rest);
    separator_ends_the_part(ended, '\n', rest);
    let text = line + seq!['\n'] + rest;
    let other = ended + seq!['\n'] + rest;
    lines_shift(text, line.len() as int + 1, line.len() as int + 1);
    lines_shift(other, ended.len() as int + 1, ended.len() as int + 1);
    assert(text.subrange(0, line.len() as int) =~= line);
    assert(other.subrange(0, ended.len() as int) =~= ended);
    assert(ended.drop_last() =~= line);
    assert(line.subrange(0, line.len() as int) =~= line);
}

proof fn filled_parts_shift(text: Seq<char>, separator: char, start: int, from: int)
    requires
        0 <= start <= from <= text.len(),
    ensures
        filled_parts(without_first(text, start), separator, from - start) == filled_parts(
            text,
            separator,
            from,
        ),
    decreases text.len() - from,
{
    let later = without_first(text, start);
    if from < text.len() {
        first_at_shifts(text, separator, start, from);
        first_occurrence_is_found(text, separator, from);
        match first_at(text, separator, from) {
            Some(end) => {
                filled_parts_shift(text, separator, start, end + 1);
                assert(later.subrange(from - start, end - start) =~= text.subrange(from, end));
            },
            None => {
                assert(later.subrange(from - start, later.len() as int) =~= text.subrange(
                    from,
                    text.len() as int,
                ));
            },
        }
    }
}

/// Parts are what stands between separators, unless nothing stands there: the first one stands before
/// the first separator, and the others are those of what follows it.
pub proof fn parts_stand_between_separators(part: Seq<char>, separator: char, rest: Seq<char>)
    requires
        !part.contains(separator),
    ensures
        part.len() > 0 ==> filled_parts(part + seq![separator] + rest, separator, 0) == seq![part]
            + filled_parts(rest, separator, 0),
        filled_parts(seq![separator] + rest, separator, 0) == filled_parts(rest, separator, 0),
        part.len() > 0 ==> filled_parts(part, separator, 0) == seq![part],
        filled_parts(Seq::empty(), separator, 0) == Seq::<Seq<char>>::empty(),
{
    separator_ends_the_part(part, separator, rest);
    let text = part + seq![separator] + rest;
    filled_parts_shift(text, separator, part.len() as int + 1, part.len() as int + 1);
    assert(text.subrange(0, part.len() as int) =~= part);
    assert(part.subrange(0, part.len() as int) =~= part);
    let bare = seq![separator] + rest;
    assert(Seq::<char>::empty() + seq![separator] + rest =~= bare);
    separator_ends_the_part(Seq::empty(), separator, rest);
    filled_parts_shift(bare, separator, 1, 1);
}

proof fn word_end_is_kept(before: Seq<char>, text: Seq<char>, from: int)
    requires
        0 <= from <= before.len() < text.len(),
        forall|i: int| 0 <= i < before.len() ==> before[i] == #[trigger] text[i],
        is_space(text[before.len() as int]),
    ensures
        word_end(before, from) == word_end(text, from),
    decreases before.len() - from,
{
    if from < before.len() {
        assert(before[from] == text[from]);
        word_end_is_kept(before, text, from + 1);
    }
}

proof fn words_shift(text: Seq<char>, start: int, from: int)
    requires
        0 <= start <= from <= text.len(),
    ensures
        words(without_first(text, start), from - start) == words(text, from),
    decreases text.len() - from,
{
    let later = without_first(text, start);
    if from < text.len() {
        if is_space(text[from]) {
            words_shift(text, start, from + 1);
        } else {
            word_end_shifts(text, start, from);
            word_end_is_later(text, from);
            let end = word_end(text, from);
            words_shift(text, start, end);
            assert(later.subrange(from - start, end - start) =~= text.subrange(from, end));
        }
    }
}

proof fn word_end_shifts(text: Seq<char>, start: int, from: int)
    requires
        0 <= start <= from <= text.len(),
    ensures
        word_end(without_first(text, start), from - start) == word_end(text, from) - start,
    decreases text.len() - from,
{
    if from < text.len() && !is_space(text[from]) {
        word_end_shifts(text, start, from + 1);
    }
}

proof fn words_from_are_split(before: Seq<char>, space: char, after: Seq<char>, from: int)
    requires
        is_space(space),
        0 <= from <= before.len(),
    ensures
        words(before + seq![space] + after, from) == words(before, from) + words(after, 0),
    decreases before.len() - from,
{
    let text = before + seq![space] + after;
    if from == before.len() {
        words_shift(text, from + 1, from + 1);
        assert(without_first(text, from + 1) =~= after);
        assert(words(before, from) + words(after, 0) =~= words(after, 0));
    } else if is_space(before[from]) {
        words_from_are_split(before, space, after, from + 1);
    } else {
        word_end_is_later(before, from);
        word_end_is_kept(before, text, from);
        let end = word_end(before, from);
        words_from_are_split(before, space, after, end);
        assert(text.subrange(from, end) =~= before.subrange(from, end));
        assert(words(text, from) =~= words(before, from) + words(after, 0));
    }
}

proof fn word_ends_at_the_end(word: Seq<char>, from: int)
    requires
        0 <= from <= word.len(),
        forall|i: int| 0 <= i < word.len() ==> !is_space(#[trigger] word[i]),
    ensures
        word_end(word, from) == word.len(),
    decreases word.len() - from,
{
    if from < word.len() {
        word_ends_at_the_end(word, from + 1);
    }
}

/// White space separates words and does nothing else: the words of a text are those before any white
/// space in it and those after it, and a text without white space is a single word.
pub proof fn white_space_separates_words(before: Seq<char>, space: char, after: Seq<char>)
    requires
        is_space(space),
    ensures
        words(before + seq![space] + after, 0) == words(before, 0) + words(after, 0),
        before.len() > 0 && (forall|i: int|
            0 <= i < before.len() ==> !is_space(#[trigger] before[i])) ==> words(before, 0)
            == seq![before],
        words(Seq::empty(), 0) == Seq::<Seq<char>>::empty(),
{
    words_from_are_split(before, space, after, 0);
    if before.len() > 0 && (forall|i: int|
        0 <= i < before.len() ==> !is_space(#[trigger] before[i])) {
        word_ends_at_the_end(before, 0);
        assert(before.subrange(0, before.len() as int) =~= before);
        assert(!is_space(before[0]));
        assert(words(before, before.len() as int) == Seq::<Seq<char>>::empty());
        assert(words(before, 0) =~= seq![before]);
    }
}

/// A word holds characters and no white space.
pub proof fn words_hold_no_white_space(text: Seq<char>, from: int, i: int)
    requires
        0 <= from <= text.len(),
        0 <= i < words(text, from).len(),
    ensures
        words(text, from)[i].len() > 0,
        forall|k: int|
            0 <= k < words(text, from)[i].len() ==> !is_space(#[trigger] words(text, from)[i][k]),
    decreases text.len() - from,
{
    if is_space(text[from]) {
        words_hold_no_white_space(text, from + 1, i);
    } else {
        let end = word_end(text, from);
        word_end_is_later(text, from);
        if i == 0 {
            word_holds_no_white_space(text, from);
            assert(words(text, from)[0] == text.subrange(from, end));
        } else {
            assert(words(text, from)[i] == words(text, end)[i - 1]);
            words_hold_no_white_space(text, end, i - 1);
        }
    }
}

proof fn word_holds_no_white_space(text: Seq<char>, from: int)
    requires
        0 <= from <= text.len(),
    ensures
        forall|k: int| from <= k < word_end(text, from) ==> !is_space(#[trigger] text[k]),
    decreases text.len() - from,
{
    if from < text.len() && !is_space(text[from]) {
        word_holds_no_white_space(text, from + 1);
    }
}

/// A text begins with a prefix just where it is the prefix with something behind it, which is the rest of
/// the text without the prefix.
pub proof fn prefixes_stand_in_front(text: Seq<char>, prefix: Seq<char>, rest: Seq<char>)
    ensures
        begins_with(prefix + rest, prefix),
        without_first(prefix + rest, prefix.len() as int) == rest,
        begins_with(text, prefix) ==> text == prefix + without_first(text, prefix.len() as int),
{
    assert((prefix + rest).subrange(0, prefix.len() as int) =~= prefix);
    assert(without_first(prefix + rest, prefix.len() as int) =~= rest);
    if begins_with(text, prefix) {
        assert(text =~= text.subrange(0, prefix.len() as int) + without_first(
            text,
            prefix.len() as int,
        ));
    }
}

} // verus!
