//! The argument parser of the `nanoargs` crate: the schema that it is built from and the values
//! that it hands out.

use crate::text::{begins_with, texts};
use nanoargs::{ArgBuilder, ArgParser, Flag, Opt, ParseError, ParseResult};
use vstd::prelude::*;

verus! {

/// The builder of a parser.
#[verifier::external_type_specification]
#[verifier::external_body]
pub struct ExArgBuilder(ArgBuilder);

/// A finished parser.
#[verifier::external_type_specification]
#[verifier::external_body]
pub struct ExArgParser(ArgParser);

/// The definition of a flag.
#[verifier::external_type_specification]
#[verifier::external_body]
pub struct ExFlag(Flag);

/// The definition of an option.
#[verifier::external_type_specification]
#[verifier::external_body]
pub struct ExOpt(Opt);

/// The values of a command line.
#[verifier::external_type_specification]
#[verifier::external_body]
pub struct ExParseResult(ParseResult);

/// The reason why a command line has no values.
#[verifier::external_type_specification]
#[verifier::external_body]
pub struct ExParseError(ParseError);

/// A flag: a switch without a value.
pub struct FlagSchema {
    pub long: Seq<char>,
    pub short: Option<char>,
    pub description: Seq<char>,
    /// Whether the flag is shown in the help text.
    pub plain: bool,
}

/// An option: an argument with a value.
pub struct OptSchema {
    pub long: Seq<char>,
    pub short: Option<char>,
    pub placeholder: Seq<char>,
    pub description: Seq<char>,
    pub multi: bool,
    /// Whether the option is shown in the help text, need not be given, and has neither a default,
    /// an environment variable nor a validator.
    pub plain: bool,
}

/// Everything that a parser knows about the command line.
pub struct Schema {
    pub name: Option<Seq<char>>,
    pub description: Option<Seq<char>>,
    pub version: Option<Seq<char>>,
    pub flags: Seq<FlagSchema>,
    pub options: Seq<OptSchema>,
    /// Sets of arguments of which at most one may be given.
    pub conflicts: Seq<(Seq<char>, Seq<Seq<char>>)>,
    /// Whether there are no positional arguments, no subcommands and no groups.
    pub plain: bool,
}

/// Why a command line has no values.
pub enum Refusal {
    /// The help text is asked for.
    Help(Seq<char>),
    /// The version is asked for.
    Version(Seq<char>),
    /// The command line is wrong; the text says how.
    Invalid(Seq<char>),
}

/// The values of a command line.
pub struct Values {
    /// Whether each flag of the schema is given.
    pub flags: Map<Seq<char>, bool>,
    /// The values of each option of the schema, in order; none where the option is not given.
    pub options: Map<Seq<char>, Seq<Seq<char>>>,
}

/// What reading a token leads to.
pub enum Reading {
    /// Nothing more is read.
    Over,
    /// The token is a short option without a name, which cannot be read.
    Stumbled,
    /// The token, and the next one where `tokens` is 2, has been read; the options in `given` have
    /// a value.
    GoOn { tokens: nat, given: Set<int> },
}

/// What the definition of a flag holds.
pub uninterp spec fn flag_schema(flag: Flag) -> FlagSchema;

/// What the definition of an option holds.
pub uninterp spec fn opt_schema(opt: Opt) -> OptSchema;

/// What a builder holds.
pub uninterp spec fn builder_schema(builder: ArgBuilder) -> Schema;

/// What a parser holds.
pub uninterp spec fn parser_schema(parser: ArgParser) -> Schema;

/// What the values of a command line are.
pub uninterp spec fn result_values(result: ParseResult) -> Values;

/// What an error says.
pub uninterp spec fn error_refusal(error: ParseError) -> Refusal;

/// What a parser of the given schema makes of a command line.
pub uninterp spec fn parse_outcome(schema: Schema, args: Seq<Seq<char>>) -> Result<Values, Refusal>;

/// `Flag::new`: a flag with a long name only, which is not hidden.
pub assume_specification[ Flag::new ](long: &str) -> (flag: Flag)
    ensures
        flag_schema(flag) == (FlagSchema {
            long: long@,
            short: None,
            description: Seq::empty(),
            plain: true,
        }),
;

/// `Flag::desc` sets the description.
pub assume_specification[ Flag::desc ](flag: Flag, description: &str) -> (changed: Flag)
    ensures
        flag_schema(changed) == (FlagSchema { description: description@, ..flag_schema(flag) }),
;

/// `Flag::short` sets the short form.
pub assume_specification[ Flag::short ](flag: Flag, ch: char) -> (changed: Flag)
    ensures
        flag_schema(changed) == (FlagSchema { short: Some(ch), ..flag_schema(flag) }),
;

/// `Opt::new`: an option with a long name only. What it sets the placeholder to, the long name in
/// upper case, is left unsaid.
pub assume_specification[ Opt::new ](long: &str) -> (opt: Opt)
    ensures
        opt_schema(opt).long == long@,
        opt_schema(opt).short is None,
        opt_schema(opt).description == Seq::<char>::empty(),
        !opt_schema(opt).multi,
        opt_schema(opt).plain,
;

/// `Opt::placeholder` sets the placeholder.
pub assume_specification[ Opt::placeholder ](opt: Opt, placeholder: &str) -> (changed: Opt)
    ensures
        opt_schema(changed) == (OptSchema { placeholder: placeholder@, ..opt_schema(opt) }),
;

/// `Opt::desc` sets the description.
pub assume_specification[ Opt::desc ](opt: Opt, description: &str) -> (changed: Opt)
    ensures
        opt_schema(changed) == (OptSchema { description: description@, ..opt_schema(opt) }),
;

/// `Opt::short` sets the short form.
pub assume_specification[ Opt::short ](opt: Opt, ch: char) -> (changed: Opt)
    ensures
        opt_schema(changed) == (OptSchema { short: Some(ch), ..opt_schema(opt) }),
;

/// `Opt::multi` lets the option be given more than once.
pub assume_specification[ Opt::multi ](opt: Opt) -> (changed: Opt)
    ensures
        opt_schema(changed) == (OptSchema { multi: true, ..opt_schema(opt) }),
;

/// `ArgBuilder::new`: a builder without any definition.
pub assume_specification[ ArgBuilder::new ]() -> (builder: ArgBuilder)
    ensures
        builder_schema(builder) == (Schema {
            name: None,
            description: None,
            version: None,
            flags: Seq::empty(),
            options: Seq::empty(),
            conflicts: Seq::empty(),
            plain: true,
        }),
;

/// `ArgBuilder::name` sets the name of the program.
pub assume_specification[ ArgBuilder::name ](builder: ArgBuilder, name: &str) -> (changed: ArgBuilder)
    ensures
        builder_schema(changed) == (Schema { name: Some(name@), ..builder_schema(builder) }),
;

/// `ArgBuilder::description` sets the description of the program.
pub assume_specification[ ArgBuilder::description ](builder: ArgBuilder, desc: &str) -> (changed:
    ArgBuilder)
    ensures
        builder_schema(changed) == (Schema { description: Some(desc@), ..builder_schema(builder) }),
;

/// `ArgBuilder::version` sets the version of the program.
pub assume_specification[ ArgBuilder::version ](builder: ArgBuilder, version: &str) -> (changed:
    ArgBuilder)
    ensures
        builder_schema(changed) == (Schema { version: Some(version@), ..builder_schema(builder) }),
;

/// `ArgBuilder::flag` adds a flag.
pub assume_specification[ ArgBuilder::flag ](builder: ArgBuilder, flag: Flag) -> (changed: ArgBuilder)
    ensures
        builder_schema(changed) == (Schema {
            flags: builder_schema(builder).flags.push(flag_schema(flag)),
            ..builder_schema(builder)
        }),
;

/// `ArgBuilder::option` adds an option.
pub assume_specification[ ArgBuilder::option ](builder: ArgBuilder, opt: Opt) -> (changed: ArgBuilder)
    ensures
        builder_schema(changed) == (Schema {
            options: builder_schema(builder).options.push(opt_schema(opt)),
            ..builder_schema(builder)
        }),
;

/// `ArgBuilder::conflict` adds a set of arguments of which at most one may be given.
pub assume_specification[ ArgBuilder::conflict ](builder: ArgBuilder, name: &str, members: &[&str])
    -> (changed: ArgBuilder)
    ensures
        builder_schema(changed) == (Schema {
            conflicts: builder_schema(builder).conflicts.push(
                (name@, members@.map_values(|member: &str| member@)),
            ),
            ..builder_schema(builder)
        }),
;

impl Schema {
    /// Whether the command line consists of nothing but plain flags and options.
    pub open spec fn is_plain(self) -> bool {
        &&& self.plain
        &&& forall|i: int| 0 <= i < self.flags.len() ==> (#[trigger] self.flags[i]).plain
        &&& forall|i: int| 0 <= i < self.options.len() ==> (#[trigger] self.options[i]).plain
    }

    /// The long names of the flags, followed by those of the options.
    pub open spec fn longs(self) -> Seq<Seq<char>> {
        self.flags.map_values(|flag: FlagSchema| flag.long) + self.options.map_values(
            |opt: OptSchema| opt.long,
        )
    }

    /// The short forms of the flags, followed by those of the options.
    pub open spec fn shorts(self) -> Seq<Option<char>> {
        self.flags.map_values(|flag: FlagSchema| flag.short) + self.options.map_values(
            |opt: OptSchema| opt.short,
        )
    }

    /// No name is used twice, `-V` is left to the version, and every conflict set names at least
    /// two known arguments.
    pub open spec fn valid(self) -> bool {
        &&& self.longs().no_duplicates()
        &&& forall|i: int, j: int|
            0 <= i < j < self.shorts().len() && #[trigger] self.shorts()[i] is Some
                ==> self.shorts()[i] != #[trigger] self.shorts()[j]
        &&& self.version is Some ==> !self.shorts().contains(Some('V'))
        &&& forall|c: int|
            0 <= c < self.conflicts.len() ==> (#[trigger] self.conflicts[c]).1.len() >= 2
        &&& forall|c: int, m: int|
            0 <= c < self.conflicts.len() && 0 <= m < self.conflicts[c].1.len()
                ==> self.longs().contains(#[trigger] self.conflicts[c].1[m])
    }

    /// Whether `short` is the short form of a flag.
    pub open spec fn has_short_flag(self, short: char) -> bool {
        exists|i: int| 0 <= i < self.flags.len() && (#[trigger] self.flags[i]).short == Some(short)
    }

    /// The position of the first option with a long name, from `from` on.
    pub open spec fn option_at(self, long: Seq<char>, from: int) -> Option<int>
        decreases self.options.len() - from,
    {
        if from < 0 || from >= self.options.len() {
            None
        } else if self.options[from].long == long {
            Some(from)
        } else {
            self.option_at(long, from + 1)
        }
    }

    /// The position of the first option with a short form, from `from` on.
    pub open spec fn short_option_at(self, short: char, from: int) -> Option<int>
        decreases self.options.len() - from,
    {
        if from < 0 || from >= self.options.len() {
            None
        } else if self.options[from].short == Some(short) {
            Some(from)
        } else {
            self.short_option_at(short, from + 1)
        }
    }

    /// Whether there is a flag with a long name.
    pub open spec fn has_flag(self, long: Seq<char>) -> bool {
        exists|i: int| 0 <= i < self.flags.len() && (#[trigger] self.flags[i]).long == long
    }

    /// Go on after `tokens` tokens that gave a value to an option: only some options can have more
    /// than one.
    pub open spec fn valued(self, option: int, tokens: nat, given: Set<int>) -> Reading {
        if self.options[option].multi {
            Reading::GoOn { tokens, given }
        } else if given.contains(option) {
            Reading::Over
        } else {
            Reading::GoOn { tokens, given: given.insert(option) }
        }
    }

    /// Read an option that may have the next token as its value.
    pub open spec fn valued_by_next(self, option: int, has_next: bool, given: Set<int>) -> Reading {
        if has_next {
            self.valued(option, 2, given)
        } else {
            Reading::Over
        }
    }

    /// Read a long flag or option.
    pub open spec fn read_long(self, token: Seq<char>, has_next: bool, given: Set<int>) -> Reading {
        match crate::text::first_at(token, '=', 2) {
            Some(equals) => match self.option_at(token.subrange(2, equals), 0) {
                Some(option) => self.valued(option, 1, given),
                None => Reading::Over,
            },
            None => {
                let long = token.subrange(2, token.len() as int);
                if self.has_flag(long) {
                    Reading::GoOn { tokens: 1, given }
                } else {
                    match self.option_at(long, 0) {
                        Some(option) => self.valued_by_next(option, has_next, given),
                        None => Reading::Over,
                    }
                }
            },
        }
    }

    /// Read short flags from character `at` on, where an option takes the rest of the token or the
    /// next one as its value.
    pub open spec fn read_cluster(
        self,
        token: Seq<char>,
        at: int,
        has_next: bool,
        given: Set<int>,
    ) -> Reading
        decreases token.len() - at,
    {
        if at < 0 || at >= token.len() {
            Reading::GoOn { tokens: 1, given }
        } else if token[at] == 'h' && !self.has_short_flag('h') {
            Reading::Over
        } else if token[at] == 'V' && self.version is Some {
            Reading::Over
        } else if self.has_short_flag(token[at]) {
            self.read_cluster(token, at + 1, has_next, given)
        } else {
            match self.short_option_at(token[at], 0) {
                Some(option) => if at + 1 < token.len() {
                    self.valued(option, 1, given)
                } else {
                    self.valued_by_next(option, has_next, given)
                },
                None => Reading::Over,
            }
        }
    }

    /// Read short flags that end with an option and its value after an equals sign.
    pub open spec fn read_short_value(self, token: Seq<char>, equals: int, given: Set<int>) -> Reading {
        if equals <= 1 {
            Reading::Stumbled
        } else if exists|k: int|
            1 <= k < equals - 1 && !self.has_short_flag(#[trigger] token[k]) {
            Reading::Over
        } else {
            match self.short_option_at(token[equals - 1], 0) {
                Some(option) => self.valued(option, 1, given),
                None => Reading::Over,
            }
        }
    }

    /// Read one token; `has_next` is whether there is another one after it, and `given` are the
    /// options that have a value.
    pub open spec fn read(self, token: Seq<char>, has_next: bool, given: Set<int>) -> Reading {
        if token == "--"@ || token == "--help"@ || token == "-h"@ || token == "--version"@ {
            Reading::Over
        } else if begins_with(token, "--"@) {
            self.read_long(token, has_next, given)
        } else if token.len() > 1 && token[0] == '-' {
            match crate::text::first_at(token, '=', 1) {
                Some(equals) => self.read_short_value(token, equals, given),
                None => self.read_cluster(token, 1, has_next, given),
            }
        } else {
            Reading::GoOn { tokens: 1, given }
        }
    }

    /// Whether reading from token `from` on meets a short option without a name (`-=`), before it
    /// is over because of the separator `--`, a request or an error.
    pub open spec fn stumbles(self, args: Seq<Seq<char>>, from: nat, given: Set<int>) -> bool
        decreases args.len() - from,
    {
        if from >= args.len() {
            false
        } else {
            match self.read(args[from as int], from + 1 < args.len(), given) {
                Reading::Over => false,
                Reading::Stumbled => true,
                Reading::GoOn { tokens, given } => if tokens == 0 || from + tokens > args.len() {
                    false
                } else {
                    self.stumbles(args, from + tokens, given)
                },
            }
        }
    }

    /// Whether an argument is given among the values: a flag that is set, or an option with a
    /// value.
    pub open spec fn given(values: Values, long: Seq<char>) -> bool {
        ||| values.flags.contains_key(long) && values.flags[long]
        ||| values.options.contains_key(long) && values.options[long].len() > 0
    }

    /// What holds of the values of every command line that fits the schema: each flag and each
    /// option of the schema has an entry, and at most one argument of a conflict set is given.
    pub open spec fn admits(self, values: Values) -> bool {
        &&& forall|i: int|
            0 <= i < self.flags.len() ==> values.flags.contains_key((#[trigger] self.flags[i]).long)
        &&& forall|i: int|
            0 <= i < self.options.len() ==> values.options.contains_key(
                (#[trigger] self.options[i]).long,
            )
        &&& forall|c: int, m: int, n: int|
            0 <= c < self.conflicts.len() && 0 <= m < n < self.conflicts[c].1.len()
                && Self::given(values, #[trigger] self.conflicts[c].1[m]) ==> !Self::given(
                values,
                #[trigger] self.conflicts[c].1[n],
            )
    }
}

/// `ArgBuilder::build` makes a parser of a valid plain schema, and of no other plain one. What the error says is
/// left open.
pub assume_specification[ ArgBuilder::build ](builder: ArgBuilder) -> (built: Result<
    ArgParser,
    ParseError,
>)
    requires
        builder_schema(builder).is_plain(),
    ensures
        built is Ok <==> builder_schema(builder).valid(),
        built matches Ok(parser) ==> parser_schema(parser) == builder_schema(builder),
;

/// `ArgParser::parse` reads a command line. What comes out depends on the schema and the tokens
/// alone, as long as the crate's `color` feature is off. Where it succeeds, the values are such as
/// the schema admits.
///
/// It panics where it comes to a short option without a name before an equals sign.
pub assume_specification[ ArgParser::parse ](parser: &ArgParser, args: Vec<String>) -> (parsed: Result<
    ParseResult,
    ParseError,
>)
    requires
        parser_schema(*parser).is_plain(),
        !parser_schema(*parser).stumbles(texts(args@), 0, Set::empty()),
    ensures
        match parsed {
            Ok(result) => parse_outcome(parser_schema(*parser), texts(args@)) == Ok::<
                Values,
                Refusal,
            >(result_values(result)),
            Err(error) => parse_outcome(parser_schema(*parser), texts(args@)) == Err::<
                Values,
                Refusal,
            >(error_refusal(error)),
        },
        parsed matches Ok(result) ==> parser_schema(*parser).admits(result_values(result)),
;

/// `ParseResult::get_flag`: whether a flag of the schema is given.
pub assume_specification[ ParseResult::get_flag ](result: &ParseResult, name: &str) -> (given: bool)
    requires
        result_values(*result).flags.contains_key(name@),
    ensures
        given == result_values(*result).flags[name@],
;

/// `ParseResult::get_option`: the last value of an option of the schema, if there is one.
pub assume_specification<'a, 'b>[ ParseResult::get_option ](result: &'a ParseResult, name: &'b str)
    -> (value: Option<&'a str>)
    requires
        result_values(*result).options.contains_key(name@),
    ensures
        value is Some <==> result_values(*result).options[name@].len() > 0,
        value matches Some(value) ==> value@ == result_values(*result).options[name@].last(),
;

/// `ParseResult::get_option_values`: all the values of an option of the schema.
pub assume_specification<'a, 'b>[ ParseResult::get_option_values ](
    result: &'a ParseResult,
    name: &'b str,
) -> (values: &'a [String])
    requires
        result_values(*result).options.contains_key(name@),
    ensures
        texts(values@) == result_values(*result).options[name@],
;

/// The reason why a command line has no values, as a plain value.
#[derive(Debug)]
pub enum ParseFailure {
    /// The help text is asked for.
    HelpRequested(String),
    /// The version is asked for.
    VersionRequested(String),
    /// The command line is wrong; the text says how.
    Invalid(String),
}

impl View for ParseFailure {
    type V = Refusal;

    open spec fn view(&self) -> Refusal {
        match self {
            ParseFailure::HelpRequested(text) => Refusal::Help(text@),
            ParseFailure::VersionRequested(text) => Refusal::Version(text@),
            ParseFailure::Invalid(text) => Refusal::Invalid(text@),
        }
    }
}

/// Take a `nanoargs::ParseError` apart: the two requests keep their text, and every other variant
/// is named by its `Display` text.
#[verifier::external_body]
pub(crate) fn parse_failure(error: ParseError) -> (failure: ParseFailure)
    ensures
        failure@ == error_refusal(error),
{
    match error {
        ParseError::HelpRequested(text) => ParseFailure::HelpRequested(text),
        ParseError::VersionRequested(text) => ParseFailure::VersionRequested(text),
        other => ParseFailure::Invalid(other.to_string()),
    }
}

} // verus!
