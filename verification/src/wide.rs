//! Text as Windows takes it: UTF-16 code units up to a zero.

use crate::text::chars_of;
use vstd::prelude::*;
use vstd::string::*;

verus! {

broadcast use vstd::string::group_string_axioms;

/// The UTF-16 code units of a character: one, or a pair of surrogates.
pub open spec fn units_of(character: char) -> Seq<u16> {
    let code = character as int;
    if code < 0x1_0000 {
        seq![code as u16]
    } else {
        seq![
            (0xd800 + (code - 0x1_0000) / 0x400) as u16,
            (0xdc00 + (code - 0x1_0000) % 0x400) as u16,
        ]
    }
}

proof fn code_is_bounded(character: char)
    ensures
        character as u32 == character as int,
        0 <= character as int <= 0x10_ffff,
        character as int == 0 ==> character == '\0',
{
}

/// The UTF-16 code units of the first `count` characters of a text.
pub open spec fn units_upto(text: Seq<char>, count: int) -> Seq<u16>
    decreases count,
{
    if count <= 0 {
        Seq::empty()
    } else {
        units_upto(text, count - 1) + units_of(text[count - 1])
    }
}

/// The UTF-16 code units of a text.
pub open spec fn utf16(text: Seq<char>) -> Seq<u16> {
    units_upto(text, text.len() as int)
}

/// The UTF-16 code units of a text, with a zero after them.
pub fn win32_string(text: &str) -> (units: Vec<u16>)
    ensures
        units@ == utf16(text@).push(0),
{
    let chars = chars_of(text);
    let mut units: Vec<u16> = Vec::new();
    let mut index: usize = 0;
    assert(units@ =~= units_upto(chars@, 0));
    while index < chars.len()
        invariant
            chars@ == text@,
            index <= chars@.len(),
            units@ == units_upto(chars@, index as int),
        decreases chars@.len() - index,
    {
        let ghost before = units@;
        let code: u32 = chars[index] as u32;
        proof {
            code_is_bounded(chars@[index as int]);
        }
        if code < 0x1_0000 {
            units.push(code as u16);
            assert(units@ =~= before + units_of(chars@[index as int]));
        } else {
            let rest: u32 = code - 0x1_0000;
            let high: u32 = 0xd800 + rest / 0x400;
            let low: u32 = 0xdc00 + rest % 0x400;
            units.push(high as u16);
            units.push(low as u16);
            assert(units@ =~= before + units_of(chars@[index as int]));
        }
        index += 1;
    }
    units.push(0);
    units
}

/// The length of a string in memory: the position of the first zero.
pub open spec fn zero_at(units: Seq<u16>, from: int) -> int
    decreases units.len() - from,
{
    if from < 0 || from >= units.len() || units[from] == 0 {
        from
    } else {
        zero_at(units, from + 1)
    }
}

/// The code units before the first zero.
pub fn before_zero(units: &Vec<u16>) -> (text: Vec<u16>)
    ensures
        text@ == units@.take(zero_at(units@, 0)),
{
    let mut text: Vec<u16> = Vec::new();
    let mut index: usize = 0;
    assert(text@ =~= units@.take(0));
    while index < units.len() && units[index] != 0
        invariant
            index <= units@.len(),
            text@ == units@.take(index as int),
            zero_at(units@, 0) == zero_at(units@, index as int),
        decreases units@.len() - index,
    {
        text.push(units[index]);
        index += 1;
        assert(text@ =~= units@.take(index as int));
    }
    text
}

proof fn units_are_not_zero(text: Seq<char>, count: int)
    requires
        0 <= count <= text.len(),
        !text.contains('\0'),
    ensures
        forall|i: int|
            0 <= i < units_upto(text, count).len() ==> #[trigger] units_upto(text, count)[i] != 0,
    decreases count,
{
    if count > 0 {
        units_are_not_zero(text, count - 1);
        let code = text[count - 1] as int;
        assert(text[count - 1] != '\0');
        code_is_bounded(text[count - 1]);
        let own = units_of(text[count - 1]);
        if code < 0x1_0000 {
            assert(own[0] == code);
        } else {
            assert(own[0] == 0xd800 + (code - 0x1_0000) / 0x400);
            assert(own[1] == 0xdc00 + (code - 0x1_0000) % 0x400);
        }
        assert forall|i: int| 0 <= i < units_upto(text, count).len() implies #[trigger] units_upto(
            text,
            count,
        )[i] != 0 by {
            let before = units_upto(text, count - 1);
            if i >= before.len() {
                assert(units_upto(text, count)[i] == own[i - before.len()]);
            } else {
                assert(units_upto(text, count)[i] == before[i]);
            }
        }
    }
}

proof fn zero_is_found(units: Seq<u16>, from: int)
    requires
        0 <= from <= units.len(),
        forall|i: int| 0 <= i < units.len() ==> #[trigger] units[i] != 0,
    ensures
        zero_at(units.push(0), from) == units.len(),
    decreases units.len() - from,
{
    if from < units.len() {
        assert(units.push(0)[from] == units[from]);
        zero_is_found(units, from + 1);
    }
}

/// A text without zeros is read back from memory as it was written.
pub proof fn written_units_are_read_back(text: Seq<char>)
    requires
        !text.contains('\0'),
    ensures
        utf16(text).push(0).take(zero_at(utf16(text).push(0), 0)) == utf16(text),
{
    units_are_not_zero(text, text.len() as int);
    zero_is_found(utf16(text), 0);
    assert(utf16(text).push(0).take(utf16(text).len() as int) =~= utf16(text));
}

/// The text of UTF-16 code units, where those that are not valid are replaced.
pub uninterp spec fn utf16_text(units: Seq<u16>) -> Seq<char>;

/// `String::from_utf16_lossy`: the text of UTF-16 code units, with replacement characters in place
/// of what is not valid. It depends on the units alone, and the code units of a text give that
/// text.
#[verifier::external_body]
pub(crate) fn text_of_utf16(units: &[u16]) -> (text: String)
    ensures
        text@ == utf16_text(units@),
        forall|written: Seq<char>| #[trigger] utf16(written) == units@ ==> text@ == written,
{
    String::from_utf16_lossy(units)
}

/// The text that stands in memory before the first zero.
pub fn text_before_zero(units: &Vec<u16>) -> (text: String)
    ensures
        text@ == utf16_text(units@.take(zero_at(units@, 0))),
        forall|written: Seq<char>|
            units@ == (#[trigger] utf16(written)).push(0) && !written.contains('\0') ==> text@
                == written,
{
    let before = before_zero(units);
    let text = text_of_utf16(before.as_slice());
    proof {
        assert forall|written: Seq<char>|
            units@ == (#[trigger] utf16(written)).push(0) && !written.contains(
                '\0',
            ) implies text@ == written by {
            written_units_are_read_back(written);
        }
    }
    text
}

/// The character that one or two code units stand for.
pub open spec fn decoded(units: Seq<u16>) -> int {
    if units.len() == 1 {
        units[0] as int
    } else {
        0x1_0000 + (units[0] - 0xd800) * 0x400 + (units[1] - 0xdc00)
    }
}

/// Every character can be told from its code units: a single unit is its number, and a pair, which
/// only characters beyond the first plane have, is made of a high and a low surrogate.
pub proof fn units_stand_for_their_character(character: char)
    ensures
        decoded(units_of(character)) == character as int,
        units_of(character).len() == if character as int >= 0x1_0000 {
            2int
        } else {
            1
        },
        units_of(character).len() == 2 ==> 0xd800 <= units_of(character)[0] <= 0xdbff && 0xdc00
            <= units_of(character)[1] <= 0xdfff,
        units_of(character).len() == 1 ==> !(0xd800 <= units_of(character)[0] <= 0xdfff),
{
    code_is_bounded(character);
}

/// The code units of a text are those of its characters, one after another.
pub proof fn units_follow_the_text(text: Seq<char>, character: char)
    ensures
        utf16(text.push(character)) == utf16(text) + units_of(character),
        utf16(Seq::empty()) == Seq::<u16>::empty(),
{
    units_of_prefix(text, text.push(character), text.len() as int);
}

proof fn units_of_prefix(text: Seq<char>, longer: Seq<char>, count: int)
    requires
        count <= text.len() <= longer.len(),
        forall|i: int| 0 <= i < text.len() ==> text[i] == #[trigger] longer[i],
    ensures
        units_upto(text, count) == units_upto(longer, count),
    decreases count,
{
    if count > 0 {
        units_of_prefix(text, longer, count - 1);
    }
}

/// A string in memory ends before its first zero, and nothing of it is left out.
pub proof fn strings_end_at_the_first_zero(units: Seq<u16>, from: int)
    requires
        0 <= from <= units.len(),
    ensures
        from <= zero_at(units, from) <= units.len(),
        forall|i: int| from <= i < zero_at(units, from) ==> #[trigger] units[i] != 0,
        zero_at(units, from) < units.len() ==> units[zero_at(units, from)] == 0,
    decreases units.len() - from,
{
    if from < units.len() && units[from] != 0 {
        strings_end_at_the_first_zero(units, from + 1);
    }
}

} // verus!
