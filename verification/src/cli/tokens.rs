//! The tokens of the command line before they are parsed, and the values of single options.

use crate::cli::CliError;
use crate::config::Class;
use crate::text::{
    chars_of, find, join, same_text, starts_with, string_of, strings_from, strip_prefix,
};
use vstd::prelude::*;
use vstd::string::*;

verus! {

broadcast use vstd::string::group_string_axioms;

/// The part of the command that is attached to the token of the command option.
pub open spec fn attached_command(token: Seq<char>) -> Option<Seq<char>> {
    if crate::text::begins_with(token, "--command="@) {
        Some(crate::text::without_first(token, "--command="@.len() as int))
    } else if crate::text::begins_with(token, "-e="@) {
        Some(crate::text::without_first(token, "-e="@.len() as int))
    } else if crate::text::begins_with(token, "-e"@) && token.len() > "-e"@.len() {
        Some(crate::text::without_first(token, "-e"@.len() as int))
    } else {
        None
    }
}

/// Whether a token is the command option.
pub open spec fn is_command(token: Seq<char>) -> bool {
    token == "-e"@ || token == "--command"@ || attached_command(token) is Some
}

/// The position of the first command option at or after `from`, if it stands before the
/// separator `--`.
pub open spec fn command_at(args: Seq<Seq<char>>, from: int) -> Option<int>
    decreases args.len() - from,
{
    if from < 0 || from >= args.len() || args[from] == "--"@ {
        None
    } else if is_command(args[from]) {
        Some(from)
    } else {
        command_at(args, from + 1)
    }
}

/// The command that is given by the command option at position `at`: what is attached to it,
/// and every token after it.
pub open spec fn command_from(args: Seq<Seq<char>>, at: int) -> Seq<Seq<char>> {
    let tail = args.subrange(at + 1, args.len() as int);
    match attached_command(args[at]) {
        Some(attached) => seq![attached] + tail,
        None => tail,
    }
}

/// The command option stays where it is, whatever follows the tokens.
pub(crate) proof fn command_stays(args: Seq<Seq<char>>, more: Seq<Seq<char>>, from: int)
    requires
        0 <= from,
        command_at(args, from) is Some,
    ensures
        command_at(args + more, from) == command_at(args, from),
        from <= command_at(args, from)->0 < args.len(),
    decreases args.len() - from,
{
    assert((args + more)[from] == args[from]);
    if !is_command(args[from]) {
        command_stays(args, more, from + 1);
    }
}

/// What is attached to the token of the command option.
fn attached(token: &str) -> (value: Option<String>)
    ensures
        crate::text::opt_text(value) == attached_command(token@),
{
    if let Some(value) = strip_prefix(token, "--command=") {
        return Some(value);
    }
    if let Some(value) = strip_prefix(token, "-e=") {
        return Some(value);
    }
    if let Some(value) = strip_prefix(token, "-e") {
        if chars_of(value.as_str()).len() > 0 {
            return Some(value);
        }
    }
    None
}

/// Remove the command tail before parsing, since every token after `-e` belongs to the child.
pub fn split_command(args: &mut Vec<String>) -> (command: Result<Vec<String>, CliError>)
    ensures
        match command_at(crate::text::texts(old(args)@), 0) {
            None => {
                &&& final(args)@ == old(args)@
                &&& command matches Ok(command) && command@.len() == 0
            },
            Some(at) => {
                let tokens = crate::text::texts(old(args)@);
                &&& crate::text::texts(final(args)@) == tokens.take(at)
                &&& match command {
                    Ok(command) => {
                        &&& crate::text::texts(command@) == command_from(tokens, at)
                        &&& command@.len() > 0
                    },
                    Err(error) => {
                        &&& command_from(tokens, at).len() == 0
                        &&& error matches CliError::Value(message)
                        &&& message@ == "option "@ + tokens[at] + " requires a command"@
                    },
                }
            },
        },
{
    let ghost tokens = crate::text::texts(args@);
    let mut index: usize = 0;
    while index < args.len()
        invariant
            index <= args@.len(),
            args@ == old(args)@,
            tokens == crate::text::texts(args@),
            command_at(tokens, 0) == command_at(tokens, index as int),
        decreases args@.len() - index,
    {
        assert(tokens[index as int] == args@[index as int]@);
        if same_text(args[index].as_str(), "--") {
            return Ok(Vec::new());
        }
        let attached_value = attached(args[index].as_str());
        if same_text(args[index].as_str(), "-e") || same_text(args[index].as_str(), "--command")
            || attached_value.is_some() {
            let option: String = args[index].clone();
            let tail = strings_from(args, index + 1);
            let mut command: Vec<String> = Vec::new();
            if let Some(value) = attached_value {
                command.push(value);
            }
            let mut tail = tail;
            let ghost start = command@;
            let ghost rest = tail@;
            command.append(&mut tail);
            args.truncate(index);
            proof {
                assert(crate::text::texts(command@) =~= crate::text::texts(start)
                    + crate::text::texts(rest));
                assert(crate::text::texts(command@) =~= command_from(tokens, index as int));
                assert(crate::text::texts(args@) =~= tokens.take(index as int));
            }
            if command.len() == 0 {
                assert(command_from(tokens, index as int).len() == 0);
                let message = join(join("option ", option.as_str()).as_str(), " requires a command");
                return Err(CliError::Value(message));
            }
            return Ok(command);
        }
        index += 1;
    }
    Ok(Vec::new())
}

/// The title option has the alias `-t`; the parser knows it as `-T`.
pub open spec fn title_alias(token: Seq<char>) -> Seq<char> {
    if crate::text::begins_with(token, "-t"@) {
        "-T"@ + crate::text::without_first(token, "-t"@.len() as int)
    } else {
        token
    }
}

/// The parser has no aliases, so normalize the historical `-t` title alias.
pub fn normalize_title_alias(args: &mut Vec<String>)
    ensures
        crate::text::texts(final(args)@) == crate::text::texts(old(args)@).map_values(
            |token: Seq<char>| title_alias(token),
        ),
{
    let mut index: usize = 0;
    while index < args.len()
        invariant
            index <= args@.len(),
            args@.len() == old(args)@.len(),
            forall|k: int| 0 <= k < index ==> (#[trigger] args@[k])@ == title_alias(old(args)@[k]@),
            forall|k: int| index <= k < args@.len() ==> args@[k] == old(args)@[k],
        decreases args@.len() - index,
    {
        if let Some(title) = strip_prefix(args[index].as_str(), "-t") {
            let renamed = join("-T", title.as_str());
            args.set(index, renamed);
        }
        index += 1;
    }
    assert(crate::text::texts(args@) =~= crate::text::texts(old(args)@).map_values(
        |token: Seq<char>| title_alias(token),
    ));
}

/// Whether a token is a config override option, with or without an attached value.
pub open spec fn is_override(token: Seq<char>) -> bool {
    ||| token == "--option"@
    ||| crate::text::begins_with(token, "--option="@)
    ||| crate::text::begins_with(token, "-o"@)
}

/// Whether a token is a config override option whose value is the next token.
pub open spec fn is_bare_override(token: Seq<char>) -> bool {
    token == "-o"@ || token == "--option"@
}

/// The tokens from `from` on, where every value of a config override has an option of its own.
pub open spec fn expanded(args: Seq<Seq<char>>, from: nat) -> Seq<Seq<char>>
    decreases args.len() - from, 0nat,
{
    if from >= args.len() {
        Seq::empty()
    } else if !is_override(args[from as int]) {
        seq![args[from as int]] + expanded(args, from + 1)
    } else if !is_bare_override(args[from as int]) {
        seq![args[from as int]] + expanded_values(args, from + 1)
    } else if from + 1 < args.len() {
        seq![args[from as int], args[from as int + 1]] + expanded_values(args, from + 2)
    } else {
        seq![args[from as int]]
    }
}

/// The tokens from `from` on, which follow the value of a config override: those up to the next
/// option are values of config overrides too.
pub open spec fn expanded_values(args: Seq<Seq<char>>, from: nat) -> Seq<Seq<char>>
    decreases args.len() - from, 1nat,
{
    if from < args.len() && !crate::text::begins_with(args[from as int], "-"@) {
        seq!["--option"@, args[from as int]] + expanded_values(args, from + 1)
    } else {
        expanded(args, from)
    }
}

/// Expand legacy `-o value value` syntax into repeated options.
pub fn normalize_config_options(args: &mut Vec<String>)
    ensures
        crate::text::texts(final(args)@) == expanded(crate::text::texts(old(args)@), 0),
{
    let ghost tokens = crate::text::texts(args@);
    let mut normalized: Vec<String> = Vec::new();
    let mut index: usize = 0;
    let mut in_values: bool = false;
    assert(crate::text::texts(normalized@) =~= Seq::<Seq<char>>::empty());
    assert(crate::text::texts(normalized@) + expanded(tokens, 0) =~= expanded(tokens, 0));
    while index < args.len()
        invariant
            index <= args@.len(),
            args@ == old(args)@,
            tokens == crate::text::texts(args@),
            crate::text::texts(normalized@) + (if in_values {
                expanded_values(tokens, index as nat)
            } else {
                expanded(tokens, index as nat)
            }) == expanded(tokens, 0),
        decreases args@.len() - index, (if in_values { 1nat } else { 0nat }),
    {
        let ghost before = normalized@;
        let ghost left = if in_values {
            expanded_values(tokens, index as nat)
        } else {
            expanded(tokens, index as nat)
        };
        assert(tokens[index as int] == args@[index as int]@);
        if in_values && !starts_with(args[index].as_str(), "-") {
            normalized.push("--option".to_owned());
            normalized.push(args[index].clone());
            proof {
                assert(crate::text::texts(normalized@) =~= crate::text::texts(before) + seq![
                    "--option"@,
                    tokens[index as int],
                ]);
                assert(crate::text::texts(normalized@) + expanded_values(tokens, (index + 1) as nat)
                    =~= crate::text::texts(before) + left);
            }
            index += 1;
        } else {
            assert(left == expanded(tokens, index as nat));
            let bare = same_text(args[index].as_str(), "-o") || same_text(
                args[index].as_str(),
                "--option",
            );
            let is_option = bare || starts_with(args[index].as_str(), "--option=") || starts_with(
                args[index].as_str(),
                "-o",
            );
            proof {
                if tokens[index as int] == "-o"@ {
                    assert("-o"@.subrange(0, "-o"@.len() as int) =~= "-o"@);
                }
            }
            normalized.push(args[index].clone());
            proof {
                assert(crate::text::texts(normalized@) =~= crate::text::texts(before) + seq![
                    tokens[index as int],
                ]);
            }
            in_values = is_option;
            if bare && index + 1 < args.len() {
                assert(tokens[index + 1] == args@[index + 1]@);
                normalized.push(args[index + 1].clone());
                proof {
                    assert(crate::text::texts(normalized@) =~= crate::text::texts(before) + seq![
                        tokens[index as int],
                        tokens[index + 1],
                    ]);
                    assert(crate::text::texts(normalized@) + expanded_values(
                        tokens,
                        (index + 2) as nat,
                    ) =~= crate::text::texts(before) + left);
                }
                index += 2;
            } else {
                proof {
                    let rest = if in_values {
                        expanded_values(tokens, (index + 1) as nat)
                    } else {
                        expanded(tokens, (index + 1) as nat)
                    };
                    if bare {
                        assert(rest == expanded(tokens, (index + 1) as nat));
                        assert(rest == Seq::<Seq<char>>::empty());
                    }
                    assert(crate::text::texts(normalized@) + rest =~= crate::text::texts(before)
                        + left);
                }
                index += 1;
            }
        }
    }
    proof {
        assert(expanded(tokens, index as nat) == Seq::<Seq<char>>::empty());
        assert(crate::text::texts(normalized@) + Seq::<Seq<char>>::empty() =~= crate::text::texts(
            normalized@,
        ));
    }
    *args = normalized;
}

/// How often a character occurs among the first `count` characters of a text.
pub open spec fn occurrences(text: Seq<char>, character: char, count: int) -> int
    decreases count,
{
    if count <= 0 || count > text.len() {
        0
    } else {
        occurrences(text, character, count - 1) + if text[count - 1] == character {
            1int
        } else {
            0
        }
    }
}

/// Whether a token is a cluster of verbosity flags.
pub open spec fn is_verbosity_cluster(token: Seq<char>) -> bool {
    &&& token.len() >= 1
    &&& token[0] == '-'
    &&& forall|k: int| 1 <= k < token.len() ==> (#[trigger] token[k] == 'q' || token[k] == 'v')
}

/// How much a token adds to a verbosity level: every flag of a cluster counts.
pub open spec fn verbosity_of(token: Seq<char>, short: char, long: Seq<char>) -> int {
    if token == long {
        1
    } else if is_verbosity_cluster(token) {
        occurrences(token.skip(1), short, token.len() - 1)
    } else {
        0
    }
}

/// The sum of what the first `count` tokens add to a verbosity level.
pub open spec fn total_verbosity(
    args: Seq<Seq<char>>,
    short: char,
    long: Seq<char>,
    count: int,
) -> int
    decreases count,
{
    if count <= 0 || count > args.len() {
        0
    } else {
        total_verbosity(args, short, long, count - 1) + verbosity_of(args[count - 1], short, long)
    }
}

/// The verbosity level of a command line, which stops at the largest one.
pub open spec fn verbosity(args: Seq<Seq<char>>, short: char, long: Seq<char>) -> int {
    let total = total_verbosity(args, short, long, args.len() as int);
    if total > u8::MAX {
        u8::MAX as int
    } else {
        total
    }
}

/// How often `short` occurs in a cluster of verbosity flags, if the token is one.
fn cluster_count(token: &str, short: char) -> (count: Option<usize>)
    ensures
        count is Some <==> is_verbosity_cluster(token@),
        count matches Some(count) ==> count == occurrences(
            token@.skip(1),
            short,
            token@.len() - 1,
        ),
{
    let chars = chars_of(token);
    if chars.len() == 0 {
        return None;
    }
    if chars[0] != '-' {
        return None;
    }
    let mut count: usize = 0;
    let mut index: usize = 1;
    let ghost flags = token@.skip(1);
    while index < chars.len()
        invariant
            chars@ == token@,
            1 <= index <= chars@.len(),
            chars@[0] == '-',
            flags == token@.skip(1),
            count < index,
            count == occurrences(flags, short, index - 1),
            forall|k: int| 1 <= k < index ==> (#[trigger] chars@[k] == 'q' || chars@[k] == 'v'),
        decreases chars@.len() - index,
    {
        if chars[index] != 'q' && chars[index] != 'v' {
            return None;
        }
        assert(flags[index - 1] == chars@[index as int]);
        if chars[index] == short {
            count += 1;
        }
        index += 1;
    }
    Some(count)
}

/// Count repeated verbosity flags, which the parser stores as booleans.
pub fn count_verbosity(args: &Vec<String>, short: char, long: &str) -> (count: u8)
    ensures
        count == verbosity(crate::text::texts(args@), short, long@),
{
    let ghost tokens = crate::text::texts(args@);
    let mut count: u8 = 0;
    let mut index: usize = 0;
    while index < args.len()
        invariant
            index <= args@.len(),
            tokens == crate::text::texts(args@),
            total_verbosity(tokens, short, long@, index as int) >= count,
            total_verbosity(tokens, short, long@, index as int) <= u8::MAX ==> count
                == total_verbosity(tokens, short, long@, index as int),
            total_verbosity(tokens, short, long@, index as int) > u8::MAX ==> count == u8::MAX,
        decreases args@.len() - index,
    {
        assert(tokens[index as int] == args@[index as int]@);
        if same_text(args[index].as_str(), long) {
            count = count.saturating_add(1);
        } else if let Some(flags) = cluster_count(args[index].as_str(), short) {
            let flags: u8 = if flags > 255 {
                255
            } else {
                flags as u8
            };
            count = count.saturating_add(flags);
        }
        index += 1;
    }
    count
}

/// The tokens of two lists add up.
proof fn totals_add_up(
    first: Seq<Seq<char>>,
    second: Seq<Seq<char>>,
    short: char,
    long: Seq<char>,
    count: int,
)
    requires
        0 <= count <= second.len(),
    ensures
        total_verbosity(first + second, short, long, first.len() + count) == total_verbosity(
            first,
            short,
            long,
            first.len() as int,
        ) + total_verbosity(second, short, long, count),
    decreases count,
{
    if count > 0 {
        totals_add_up(first, second, short, long, count - 1);
    } else {
        total_of_prefix(first, second, short, long, first.len() as int);
    }
}

/// What the first tokens of a list add does not depend on those that follow.
proof fn total_of_prefix(
    first: Seq<Seq<char>>,
    second: Seq<Seq<char>>,
    short: char,
    long: Seq<char>,
    count: int,
)
    requires
        0 <= count <= first.len(),
    ensures
        total_verbosity(first + second, short, long, count) == total_verbosity(
            first,
            short,
            long,
            count,
        ),
    decreases count,
{
    if count > 0 {
        total_of_prefix(first, second, short, long, count - 1);
    }
}

/// No token lowers a verbosity level.
proof fn total_is_positive(args: Seq<Seq<char>>, short: char, long: Seq<char>, count: int)
    ensures
        total_verbosity(args, short, long, count) >= 0,
    decreases count,
{
    if 0 < count <= args.len() {
        total_is_positive(args, short, long, count - 1);
        occurrences_are_positive(args[count - 1].skip(1), short, args[count - 1].len() - 1);
    }
}

proof fn occurrences_are_positive(text: Seq<char>, character: char, count: int)
    ensures
        occurrences(text, character, count) >= 0,
    decreases count,
{
    if 0 < count <= text.len() {
        occurrences_are_positive(text, character, count - 1);
    }
}

/// The verbosity level of two lists of tokens together is the sum of their levels, up to the
/// largest one, in whichever order they come; without tokens it is zero.
pub proof fn verbosity_adds_up(
    first: Seq<Seq<char>>,
    second: Seq<Seq<char>>,
    short: char,
    long: Seq<char>,
)
    ensures
        verbosity(first + second, short, long) == if verbosity(first, short, long) + verbosity(
            second,
            short,
            long,
        ) > u8::MAX {
            u8::MAX as int
        } else {
            verbosity(first, short, long) + verbosity(second, short, long)
        },
        verbosity(second + first, short, long) == verbosity(first + second, short, long),
        verbosity(Seq::<Seq<char>>::empty(), short, long) == 0,
{
    totals_add_up(first, second, short, long, second.len() as int);
    totals_add_up(second, first, short, long, first.len() as int);
    total_is_positive(first, short, long, first.len() as int);
    total_is_positive(second, short, long, second.len() as int);
}

/// Parse the class CLI parameter.
pub fn parse_class(input: &str) -> (class: Result<Class, String>)
    ensures
        match crate::text::first_at(input@, ',', 0) {
            None => class matches Ok(class) && class.general@ == input@ && class.instance@ == input@,
            Some(comma) => if crate::text::first_at(input@, ',', comma + 1) is Some {
                class matches Err(message) && message@ == "Too many parameters"@
            } else {
                &&& class matches Ok(class)
                &&& class.general@ == input@.take(comma)
                &&& class.instance@ == crate::text::without_first(input@, comma + 1)
            },
        },
{
    let chars = chars_of(input);
    match find(&chars, ',', 0) {
        None => {
            Ok(Class::new(input, input))
        },
        Some(comma) => {
            if find(&chars, ',', comma + 1).is_some() {
                return Err("Too many parameters".to_owned());
            }
            let general = string_of(&chars, 0, comma);
            let instance = string_of(&chars, comma + 1, chars.len());
            assert(chars@.subrange(0, comma as int) =~= input@.take(comma as int));
            Ok(Class::new(general.as_str(), instance.as_str()))
        },
    }
}

/// The value of a digit.
pub open spec fn digit_value(character: char) -> int {
    if '0' <= character <= '9' {
        character as int - '0' as int
    } else if 'a' <= character <= 'z' {
        character as int - 'a' as int + 10
    } else if 'A' <= character <= 'Z' {
        character as int - 'A' as int + 10
    } else {
        36
    }
}

/// The number that the first `count` digits of a text write down.
pub open spec fn digits_value(text: Seq<char>, radix: int, count: int) -> int
    decreases count,
{
    if count <= 0 {
        0
    } else {
        digits_value(text, radix, count - 1) * radix + digit_value(text[count - 1])
    }
}

/// A number without its plus sign.
pub open spec fn unsigned_digits(text: Seq<char>) -> Seq<char> {
    if text.len() > 0 && text[0] == '+' {
        crate::text::without_first(text, 1)
    } else {
        text
    }
}

/// The number that a text writes down: at least one digit, after a plus sign or not.
pub open spec fn number(text: Seq<char>, radix: int) -> Option<int> {
    let digits = unsigned_digits(text);
    if digits.len() > 0 && (forall|k: int|
        0 <= k < digits.len() ==> digit_value(#[trigger] digits[k]) < radix) && digits_value(
        digits,
        radix,
        digits.len() as int,
    ) <= u32::MAX {
        Some(digits_value(digits, radix, digits.len() as int))
    } else {
        None
    }
}

/// The value of a digit.
fn digit(character: char) -> (value: u32)
    ensures
        value == digit_value(character),
        value <= 36,
{
    if '0' <= character && character <= '9' {
        character as u32 - '0' as u32
    } else if 'a' <= character && character <= 'z' {
        character as u32 - 'a' as u32 + 10
    } else if 'A' <= character && character <= 'Z' {
        character as u32 - 'A' as u32 + 10
    } else {
        36
    }
}

/// A number never gets smaller by another digit.
proof fn digits_value_grows(text: Seq<char>, radix: int, low: int, high: int)
    requires
        radix >= 1,
        0 <= low <= high <= text.len(),
    ensures
        0 <= digits_value(text, radix, low) <= digits_value(text, radix, high),
    decreases high,
{
    if high > low {
        digits_value_grows(text, radix, low, high - 1);
        assert(digits_value(text, radix, high - 1) * radix >= digits_value(text, radix, high - 1))
            by (nonlinear_arith)
            requires
                radix >= 1,
                digits_value(text, radix, high - 1) >= 0,
        ;
    } else if high > 0 {
        digits_value_grows(text, radix, high - 1, high - 1);
        assert(digits_value(text, radix, high - 1) * radix >= 0) by (nonlinear_arith)
            requires
                radix >= 1,
                digits_value(text, radix, high - 1) >= 0,
        ;
    }
}

/// Read the number that the characters from `from` on write down.
fn parse_number(chars: &Vec<char>, from: usize, radix: u32) -> (value: Option<u32>)
    requires
        from <= chars@.len(),
        radix == 10 || radix == 16,
    ensures
        match (value, number(crate::text::without_first(chars@, from as int), radix as int)) {
            (Some(value), Some(expected)) => value == expected,
            (None, None) => true,
            _ => false,
        },
{
    let ghost text = crate::text::without_first(chars@, from as int);
    let mut start: usize = from;
    if from < chars.len() && chars[from] == '+' {
        start = from + 1;
    }
    let ghost digits = unsigned_digits(text);
    assert(digits =~= chars@.subrange(start as int, chars@.len() as int));
    if start >= chars.len() {
        return None;
    }
    let mut value: u32 = 0;
    let mut index: usize = start;
    while index < chars.len()
        invariant
            start <= index <= chars@.len(),
            digits == chars@.subrange(start as int, chars@.len() as int),
            digits == unsigned_digits(text),
            text == crate::text::without_first(chars@, from as int),
            radix == 10 || radix == 16,
            value == digits_value(digits, radix as int, index - start),
            forall|k: int| 0 <= k < index - start ==> digit_value(#[trigger] digits[k]) < radix,
        decreases chars@.len() - index,
    {
        let next: u32 = digit(chars[index]);
        assert(digits[index - start] == chars@[index as int]);
        if next >= radix {
            return None;
        }
        assert(0 <= value * radix <= u32::MAX * 16) by (nonlinear_arith)
            requires
                0 <= value <= u32::MAX,
                0 <= radix <= 16,
        ;
        let wide: u64 = value as u64 * radix as u64 + next as u64;
        assert(wide == digits_value(digits, radix as int, index - start + 1));
        if wide > u32::MAX as u64 {
            proof {
                digits_value_grows(
                    digits,
                    radix as int,
                    index - start + 1,
                    digits.len() as int,
                );
            }
            return None;
        }
        value = wide as u32;
        index += 1;
    }
    Some(value)
}

/// Read a decimal number.
pub fn parse_decimal(input: &str) -> (value: Option<u32>)
    ensures
        match (value, number(input@, 10)) {
            (Some(value), Some(expected)) => value == expected,
            (None, None) => true,
            _ => false,
        },
{
    let chars = chars_of(input);
    assert(crate::text::without_first(chars@, 0) =~= input@);
    parse_number(&chars, 0, 10)
}

/// The number that a text writes down in hexadecimal after `0x`, or else in decimal.
pub open spec fn hex_or_decimal(input: Seq<char>) -> Option<int> {
    if crate::text::begins_with(input, "0x"@) && number(
        crate::text::without_first(input, "0x"@.len() as int),
        16,
    ) is Some {
        number(crate::text::without_first(input, "0x"@.len() as int), 16)
    } else {
        number(input, 10)
    }
}

/// Convert to hex if possible, else decimal.
pub fn parse_hex_or_decimal(input: &str) -> (value: Option<u32>)
    ensures
        match (value, hex_or_decimal(input@)) {
            (Some(value), Some(expected)) => value == expected,
            (None, None) => true,
            _ => false,
        },
{
    let chars = chars_of(input);
    if starts_with(input, "0x") {
        proof {
            reveal_strlit("0x");
        }
        let value = parse_number(&chars, 2, 16);
        if value.is_some() {
            return value;
        }
    }
    parse_decimal(input)
}

proof fn digits_of_prefix(text: Seq<char>, longer: Seq<char>, radix: int, count: int)
    requires
        0 <= count <= text.len() <= longer.len(),
        forall|k: int| 0 <= k < text.len() ==> #[trigger] longer[k] == text[k],
    ensures
        digits_value(longer, radix, count) == digits_value(text, radix, count),
    decreases count,
{
    if count > 0 {
        digits_of_prefix(text, longer, radix, count - 1);
    }
}

proof fn decimal_has_its_value(value: nat)
    ensures
        crate::text::decimal(value).len() > 0,
        forall|k: int|
            0 <= k < crate::text::decimal(value).len() ==> '0' <= (#[trigger] crate::text::decimal(
                value,
            )[k]) <= '9',
        digits_value(
            crate::text::decimal(value),
            10,
            crate::text::decimal(value).len() as int,
        ) == value,
    decreases value,
{
    let digits = crate::text::decimal(value);
    if value >= 10 {
        decimal_has_its_value(value / 10);
        let shorter = crate::text::decimal(value / 10);
        digits_of_prefix(shorter, digits, 10, shorter.len() as int);
        assert(digits[digits.len() - 1] == (value % 10 + '0' as nat) as char);
        assert(digit_value(digits[digits.len() - 1]) == value % 10);
        assert(digits_value(digits, 10, digits.len() as int) == digits_value(
            digits,
            10,
            shorter.len() as int,
        ) * 10 + value % 10);
    } else {
        assert(digits[0] == (value + '0' as nat) as char);
        assert(digit_value(digits[0]) == value);
        reveal_with_fuel(digits_value, 2);
    }
}

/// Numbers that are written down are read back as they are, with or without a plus sign.
pub proof fn written_numbers_are_read_back(value: nat)
    requires
        value <= u32::MAX,
    ensures
        number(crate::text::decimal(value), 10) == Some(value as int),
        number(seq!['+'] + crate::text::decimal(value), 10) == Some(value as int),
{
    decimal_has_its_value(value);
    let digits = crate::text::decimal(value);
    assert(digits[0] != '+');
    assert(unsigned_digits(digits) == digits);
    let signed = seq!['+'] + digits;
    assert(crate::text::without_first(signed, 1) =~= digits);
    assert(unsigned_digits(signed) == digits);
    assert forall|k: int| 0 <= k < digits.len() implies digit_value(#[trigger] digits[k]) < 10 by {
        assert('0' <= digits[k] <= '9');
    }
}

/// The title option is the same under its alias: `-t` becomes `-T` with the same value behind it, and
/// every other token stays as it is.
pub proof fn title_alias_keeps_the_title(token: Seq<char>, title: Seq<char>)
    ensures
        title_alias(seq!['-', 't'] + title) == seq!['-', 'T'] + title,
        !(token.len() >= 2 && token[0] == '-' && token[1] == 't') ==> title_alias(token) == token,
        title_alias(title_alias(token)) == title_alias(token),
{
    reveal_strlit("-t");
    reveal_strlit("-T");
    let own = seq!['-', 't'] + title;
    assert(own.subrange(0, 2) =~= "-t"@);
    assert(crate::text::without_first(own, 2) =~= title);
    assert("-T"@ + title =~= seq!['-', 'T'] + title);
    if crate::text::begins_with(token, "-t"@) {
        assert(token.subrange(0, 2)[0] == '-' && token.subrange(0, 2)[1] == 't');
        assert(token[0] == token.subrange(0, 2)[0] && token[1] == token.subrange(0, 2)[1]);
    }
    let renamed = title_alias(token);
    if crate::text::begins_with(renamed, "-t"@) {
        assert(renamed.subrange(0, 2)[1] == 't');
        assert(renamed[1] == 't');
    }
}

/// Everything behind the first `-e` or `--command` is the command of the child, whatever it looks like,
/// as long as no `--` comes before it.
pub proof fn command_is_what_follows(args: Seq<Seq<char>>, i: int)
    requires
        0 <= i < args.len(),
        args[i] == "-e"@ || args[i] == "--command"@,
        forall|k: int| 0 <= k < i ==> #[trigger] args[k] != "--"@ && !is_command(args[k]),
    ensures
        command_at(args, 0) == Some(i),
        command_from(args, i) == args.skip(i + 1),
{
    reveal_strlit("--");
    reveal_strlit("-e");
    reveal_strlit("-e=");
    reveal_strlit("--command");
    reveal_strlit("--command=");
    assert("-e"@[1] == 'e' && "--"@[1] == '-' && "--command"@.len() == 9);
    command_is_not_earlier(args, 0, i);
    let token = args[i];
    if crate::text::begins_with(token, "-e"@) {
        assert(token.subrange(0, 2)[1] == 'e');
        assert(token[1] == 'e');
    }
    if crate::text::begins_with(token, "-e="@) {
        assert(token.subrange(0, 3)[1] == 'e');
        assert(token[1] == 'e');
    }
    assert(attached_command(token) is None);
    assert(command_from(args, i) =~= args.skip(i + 1));
}

proof fn command_is_not_earlier(args: Seq<Seq<char>>, from: int, i: int)
    requires
        0 <= from <= i < args.len(),
        is_command(args[i]),
        args[i] != "--"@,
        forall|k: int| 0 <= k < i ==> #[trigger] args[k] != "--"@ && !is_command(args[k]),
    ensures
        command_at(args, from) == Some(i),
    decreases i - from,
{
    if from < i {
        command_is_not_earlier(args, from + 1, i);
    }
}

/// Tokens without config overrides are kept as they are.
pub proof fn other_tokens_are_kept(args: Seq<Seq<char>>, from: nat)
    requires
        from <= args.len(),
        forall|k: int| from <= k < args.len() ==> !is_override(#[trigger] args[k]),
    ensures
        expanded(args, from) == args.skip(from as int),
    decreases args.len() - from,
{
    if from < args.len() {
        assert(!is_override(args[from as int]));
        other_tokens_are_kept(args, from + 1);
    }
    assert(expanded(args, from) =~= args.skip(from as int));
}

/// Every value of a config override gets an option of its own: the values that follow the first one,
/// up to the next token that begins with a hyphen, stand in the same order, each behind an option,
/// and what follows them is read on its own.
pub proof fn every_value_gets_an_option(args: Seq<Seq<char>>, from: nat, count: nat, k: int)
    requires
        from + count <= args.len(),
        forall|i: int|
            from <= i < from + count ==> (#[trigger] args[i]).len() == 0 || args[i][0] != '-',
        from + count < args.len() ==> args[(from + count) as int].len() > 0 && args[(from
            + count) as int][0] == '-',
        0 <= k < count,
    ensures
        ({
            let written = expanded_values(args, from);
            let rest = expanded(args, from + count);
            &&& written.len() == 2 * count + rest.len()
            &&& written[2 * k] == "--option"@
            &&& written[2 * k + 1] == args[from + k]
            &&& written.skip(2 * count as int) == rest
        }),
    decreases count,
{
    reveal_strlit("-");
    let first = args[from as int];
    if crate::text::begins_with(first, "-"@) {
        assert(first.subrange(0, 1)[0] == '-');
    }
    let later = expanded_values(args, from + 1);
    let written = expanded_values(args, from);
    let rest = expanded(args, from + count);
    assert(written == seq!["--option"@, first] + later);
    if count > 1 {
        every_value_gets_an_option(
            args,
            from + 1,
            (count - 1) as nat,
            if k > 0 {
                k - 1
            } else {
                0
            },
        );
        assert(written.skip(2 * count as int) =~= later.skip(2 * (count - 1) as int));
        if k > 0 {
            assert(written[2 * k] == later[2 * (k - 1)]);
            assert(written[2 * k + 1] == later[2 * (k - 1) + 1]);
        }
    } else {
        if from + 1 < args.len() {
            let next = args[from as int + 1];
            assert(next.subrange(0, 1) =~= "-"@);
        }
        assert(later == rest);
        assert(written.skip(2) =~= rest);
    }
}

/// Letters are digits in both cases: the first ten digits are followed by the alphabet, and nothing else
/// is a digit.
pub proof fn letters_follow_the_digits(character: char, place: int)
    requires
        0 <= place,
    ensures
        character as int == '0' as int + place && place < 10 ==> digit_value(character) == place,
        character as int == 'a' as int + place && place < 26 ==> digit_value(character) == place
            + 10,
        character as int == 'A' as int + place && place < 26 ==> digit_value(character) == place
            + 10,
        digit_value(character) < 36 ==> '0' <= character <= '9' || 'a' <= character <= 'z' || 'A'
            <= character <= 'Z',
{
}

proof fn repeated_flags_are_counted(text: Seq<char>, character: char, count: int)
    requires
        0 <= count <= text.len(),
        forall|i: int| 0 <= i < text.len() ==> #[trigger] text[i] == character,
    ensures
        occurrences(text, character, count) == count,
    decreases count,
{
    if count > 0 {
        repeated_flags_are_counted(text, character, count - 1);
    }
}

/// Every flag of a cluster counts: a hyphen with so many flags behind it adds that many levels, whether
/// they make the program quiet or verbose, and nothing to the other level. A long flag adds one.
pub proof fn every_flag_of_a_cluster_counts(flags: Seq<char>, short: char, long: Seq<char>)
    requires
        short == 'q' || short == 'v',
        forall|i: int| 0 <= i < flags.len() ==> #[trigger] flags[i] == short,
        seq!['-'] + flags != long,
    ensures
        verbosity_of(seq!['-'] + flags, short, long) == flags.len(),
        verbosity_of(long, short, long) == 1,
        flags.len() > 0 ==> verbosity_of(flags, short, long) == if flags == long {
            1int
        } else {
            0
        },
{
    let token = seq!['-'] + flags;
    assert(token.skip(1) =~= flags);
    assert forall|k: int| 1 <= k < token.len() implies (#[trigger] token[k] == 'q' || token[k]
        == 'v') by {
        assert(token[k] == flags[k - 1]);
    }
    assert(token[0] == '-');
    assert(is_verbosity_cluster(token));
    repeated_flags_are_counted(flags, short, flags.len() as int);
    if flags.len() > 0 {
        assert(flags[0] == short);
    }
}

} // verus!
