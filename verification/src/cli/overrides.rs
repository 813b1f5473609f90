//! Settings that the command line overrides one by one.

use crate::text::join;
use crate::toml_value::parse_toml;
use toml::Value;
use vstd::prelude::*;
use vstd::string::*;

verus! {

broadcast use vstd::string::group_string_axioms;

/// Parsed CLI config overrides.
#[derive(Debug)]
pub struct ParsedOptions {
    pub config_options: Vec<(String, Value)>,
}

impl View for ParsedOptions {
    type V = Seq<(Seq<char>, Value)>;

    open spec fn view(&self) -> Seq<(Seq<char>, Value)> {
        self.config_options@.map_values(|option: (String, Value)| (option.0@, option.1))
    }
}

/// The options that are valid TOML, each with its value.
pub open spec fn valid_options(options: Seq<Seq<char>>) -> Seq<(Seq<char>, Value)>
    decreases options.len(),
{
    if options.len() == 0 {
        Seq::empty()
    } else {
        match crate::toml_value::toml_outcome(options.last()) {
            Ok(value) => valid_options(options.drop_last()).push((options.last(), value)),
            Err(_) => valid_options(options.drop_last()),
        }
    }
}

/// What is said about the options that are not valid TOML.
pub open spec fn option_warnings(options: Seq<Seq<char>>) -> Seq<Seq<char>>
    decreases options.len(),
{
    if options.len() == 0 {
        Seq::empty()
    } else {
        match crate::toml_value::toml_outcome(options.last()) {
            Ok(_) => option_warnings(options.drop_last()),
            Err(error) => option_warnings(options.drop_last()).push(
                "Ignoring invalid CLI option '"@ + options.last() + "': "@ + error,
            ),
        }
    }
}

/// The items of a sequence that are marked.
pub open spec fn marked<T>(items: Seq<T>, marks: Seq<bool>) -> Seq<T>
    decreases items.len(),
{
    if items.len() == 0 || marks.len() < items.len() {
        Seq::empty()
    } else if marks[items.len() - 1] {
        marked(items.drop_last(), marks).push(items.last())
    } else {
        marked(items.drop_last(), marks)
    }
}

impl Default for ParsedOptions {
    fn default() -> (options: ParsedOptions)
        ensures
            options@ == Seq::<(Seq<char>, Value)>::empty(),
    {
        ParsedOptions { config_options: Vec::new() }
    }
}

impl ParsedOptions {
    /// Parse CLI config overrides. The second result says which options are ignored, and why.
    pub fn from_options_with_warnings(options: &Vec<String>) -> (parsed: (
        ParsedOptions,
        Vec<String>,
    ))
        ensures
            parsed.0@ == valid_options(crate::text::texts(options@)),
            crate::text::texts(parsed.1@) == option_warnings(crate::text::texts(options@)),
    {
        let ghost all = crate::text::texts(options@);
        let mut parsed = ParsedOptions { config_options: Vec::new() };
        let mut warnings: Vec<String> = Vec::new();
        let mut index: usize = 0;
        assert(all.take(0) =~= Seq::<Seq<char>>::empty());
        assert(parsed@ =~= valid_options(all.take(0)));
        assert(crate::text::texts(warnings@) =~= option_warnings(all.take(0)));
        while index < options.len()
            invariant
                index <= options@.len(),
                all == crate::text::texts(options@),
                parsed@ == valid_options(all.take(index as int)),
                crate::text::texts(warnings@) == option_warnings(all.take(index as int)),
            decreases options@.len() - index,
        {
            let ghost seen = parsed@;
            let ghost said = crate::text::texts(warnings@);
            proof {
                assert(all.take(index + 1).drop_last() =~= all.take(index as int));
                assert(all.take(index + 1).last() == options@[index as int]@);
            }
            match parse_toml(options[index].as_str()) {
                Ok(value) => {
                    parsed.config_options.push((options[index].clone(), value));
                    assert(parsed@ =~= seen.push((options@[index as int]@, value)));
                },
                Err(error) => {
                    let start = join(
                        "Ignoring invalid CLI option '",
                        options[index].as_str(),
                    );
                    let warning = join(join(start.as_str(), "': ").as_str(), error.as_str());
                    warnings.push(warning);
                    assert(crate::text::texts(warnings@) =~= said.push(warning@));
                },
            }
            index += 1;
        }
        assert(all.take(index as int) =~= all);
        (parsed, warnings)
    }

    /// Parse CLI config overrides.
    pub fn from_options(options: &Vec<String>) -> (parsed: ParsedOptions)
        ensures
            parsed@ == valid_options(crate::text::texts(options@)),
    {
        ParsedOptions::from_options_with_warnings(options).0
    }

    /// The number of overrides.
    pub fn len(&self) -> (count: usize)
        ensures
            count == self@.len(),
    {
        self.config_options.len()
    }

    /// Whether there is nothing to override.
    pub fn is_empty(&self) -> (empty: bool)
        ensures
            empty == (self@.len() == 0),
    {
        self.config_options.len() == 0
    }

    /// Remove the overrides that could not be applied; `applied` says of each whether it could.
    pub fn override_config(&mut self, applied: &Vec<bool>)
        requires
            applied@.len() == old(self)@.len(),
        ensures
            final(self)@ == marked(old(self)@, applied@),
    {
        let ghost all = self@;
        let mut index: usize = 0;
        let mut kept: Vec<(String, Value)> = Vec::new();
        let ghost mut kept_view: Seq<(Seq<char>, Value)> = Seq::empty();
        assert(all.take(0) =~= Seq::<(Seq<char>, Value)>::empty());
        while index < self.config_options.len()
            invariant
                index <= self.config_options@.len(),
                applied@.len() == self.config_options@.len(),
                all == self@,
                *self == *old(self),
                kept_view == kept@.map_values(|option: (String, Value)| (option.0@, option.1)),
                kept_view == marked(all.take(index as int), applied@),
            decreases self.config_options@.len() - index,
        {
            proof {
                assert(all.take(index + 1).drop_last() =~= all.take(index as int));
            }
            if applied[index] {
                let option = &self.config_options[index];
                kept.push((option.0.clone(), option.1.clone()));
                proof {
                    kept_view = kept_view.push(all[index as int]);
                    assert(kept_view =~= kept@.map_values(
                        |option: (String, Value)| (option.0@, option.1),
                    ));
                }
            }
            index += 1;
        }
        assert(all.take(index as int) =~= all);
        self.config_options = kept;
    }

    /// Append another ParsedOptions.
    pub fn append(&mut self, other: &ParsedOptions)
        ensures
            final(self)@ == old(self)@ + other@,
    {
        let ghost start = self@;
        let mut index: usize = 0;
        assert(start + other@.take(0) =~= start);
        while index < other.config_options.len()
            invariant
                index <= other.config_options@.len(),
                self@ == start + other@.take(index as int),
            decreases other.config_options@.len() - index,
        {
            let ghost before = self@;
            let option = &other.config_options[index];
            self.config_options.push((option.0.clone(), option.1.clone()));
            index += 1;
            assert(self@ =~= before.push(other@[index - 1]));
            assert(self@ =~= start + other@.take(index as int));
        }
        assert(other@.take(index as int) =~= other@);
    }

    /// Merge another ParsedOptions (same as append).
    pub fn merge(&mut self, other: &ParsedOptions)
        ensures
            final(self)@ == old(self)@ + other@,
    {
        self.append(other);
    }
}

/// What has been applied stays: where every override that is left can be applied again, none is
/// removed.
pub proof fn applied_overrides_stay(
    options: Seq<(Seq<char>, Value)>,
    applied: Seq<bool>,
    again: Seq<bool>,
)
    requires
        applied.len() == options.len(),
        again.len() == marked(options, applied).len(),
        forall|i: int| 0 <= i < again.len() ==> again[i],
    ensures
        marked(marked(options, applied), again) == marked(options, applied),
{
    all_marked(marked(options, applied), again);
}

/// Only overrides that were given are left, and each one that could be applied is.
pub proof fn applied_overrides_are_left(options: Seq<(Seq<char>, Value)>, applied: Seq<bool>)
    requires
        applied.len() == options.len(),
    ensures
        marked(options, applied).len() <= options.len(),
        forall|i: int|
            0 <= i < options.len() && #[trigger] applied[i] ==> marked(options, applied).contains(
                options[i],
            ),
        forall|k: int|
            0 <= k < marked(options, applied).len() ==> options.contains(
                #[trigger] marked(options, applied)[k],
            ),
{
    marked_items(options, applied);
}

proof fn all_marked(options: Seq<(Seq<char>, Value)>, marks: Seq<bool>)
    requires
        marks.len() >= options.len(),
        forall|i: int| 0 <= i < options.len() ==> marks[i],
    ensures
        marked(options, marks) == options,
    decreases options.len(),
{
    if options.len() > 0 {
        all_marked(options.drop_last(), marks);
    }
    assert(marked(options, marks) =~= options);
}

proof fn marked_items(options: Seq<(Seq<char>, Value)>, marks: Seq<bool>)
    requires
        marks.len() >= options.len(),
    ensures
        marked(options, marks).len() <= options.len(),
        forall|i: int|
            0 <= i < options.len() && #[trigger] marks[i] ==> marked(options, marks).contains(
                options[i],
            ),
        forall|k: int|
            0 <= k < marked(options, marks).len() ==> options.contains(
                #[trigger] marked(options, marks)[k],
            ),
    decreases options.len(),
{
    if options.len() > 0 {
        let fewer = options.drop_last();
        let before = marked(fewer, marks);
        let after = marked(options, marks);
        marked_items(fewer, marks);
        assert forall|i: int| 0 <= i < options.len() && #[trigger] marks[i] implies after.contains(
            options[i],
        ) by {
            if i < fewer.len() {
                assert(fewer[i] == options[i]);
                let k = choose|k: int| 0 <= k < before.len() && before[k] == options[i];
                assert(after[k] == options[i]);
            } else {
                assert(after[before.len() as int] == options[i]);
            }
        }
        assert forall|k: int| 0 <= k < after.len() implies options.contains(
            #[trigger] after[k],
        ) by {
            if k < before.len() {
                assert(fewer.contains(before[k]));
                let i = choose|i: int| 0 <= i < fewer.len() && fewer[i] == before[k];
                assert(options[i] == after[k]);
            } else {
                assert(options[options.len() - 1] == after[k]);
            }
        }
    }
}

/// Options are read one by one: what becomes of an option does not depend on the others. A valid one
/// is kept with the value that it gives, and of any other something is said that names it.
pub proof fn options_are_read_one_by_one(
    first: Seq<Seq<char>>,
    option: Seq<char>,
    second: Seq<Seq<char>>,
)
    ensures
        valid_options(first + second) == valid_options(first) + valid_options(second),
        option_warnings(first + second) == option_warnings(first) + option_warnings(second),
        match crate::toml_value::toml_outcome(option) {
            Ok(value) => valid_options(seq![option]) == seq![(option, value)] && option_warnings(
                seq![option],
            ).len() == 0,
            Err(error) => {
                &&& valid_options(seq![option]).len() == 0
                &&& option_warnings(seq![option]).len() == 1
                &&& option_warnings(seq![option])[0] == "Ignoring invalid CLI option '"@ + option
                    + "': "@ + error
            },
        },
    decreases second.len(),
{
    let one = seq![option];
    assert(one.drop_last() =~= Seq::<Seq<char>>::empty());
    assert(valid_options(one.drop_last()) =~= Seq::<(Seq<char>, Value)>::empty());
    assert(option_warnings(one.drop_last()) =~= Seq::<Seq<char>>::empty());
    let both = first + second;
    if second.len() == 0 {
        assert(both =~= first);
        assert(valid_options(first) + valid_options(second) =~= valid_options(first));
        assert(option_warnings(first) + option_warnings(second) =~= option_warnings(first));
    } else {
        options_are_read_one_by_one(first, option, second.drop_last());
        assert(both.drop_last() =~= first + second.drop_last());
        assert(both.last() == second.last());
        assert(valid_options(both) =~= valid_options(first) + valid_options(second));
        assert(option_warnings(both) =~= option_warnings(first) + option_warnings(second));
    }
}

} // verus!
