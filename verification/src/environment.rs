//! What was read from the environment of the process.

use crate::text::{blank, lemma_blank_is_trimmed_away, same_text, trim, trimmed};
use vstd::prelude::*;

verus! {

/// What reading an environment variable gave.
#[derive(Clone, Debug, PartialEq, Eq)]
pub enum EnvReading {
    Value(String),
    /// The variable is set, but to no valid Unicode.
    NotUnicode,
    NotPresent,
}

pub enum ReadingModel {
    Value(Seq<char>),
    NotUnicode,
    NotPresent,
}

impl View for EnvReading {
    type V = ReadingModel;

    open spec fn view(&self) -> ReadingModel {
        match *self {
            EnvReading::Value(value) => ReadingModel::Value(value@),
            EnvReading::NotUnicode => ReadingModel::NotUnicode,
            EnvReading::NotPresent => ReadingModel::NotPresent,
        }
    }
}

/// Variables that were read, each under its name.
#[derive(Clone, Debug, PartialEq, Eq)]
pub struct EnvSnapshot {
    pub vars: Vec<(String, EnvReading)>,
}

/// What `vars` says of the variable `name`: the first entry counts, and a
/// variable without an entry is not present.
pub open spec fn reading_of(vars: Seq<(String, EnvReading)>, name: Seq<char>) -> ReadingModel
    decreases vars.len(),
{
    if vars.len() == 0 {
        ReadingModel::NotPresent
    } else if vars[0].0@ == name {
        vars[0].1@
    } else {
        reading_of(vars.drop_first(), name)
    }
}

impl EnvSnapshot {
    /// What the snapshot says of the variable `name`.
    pub open spec fn reads(&self, name: Seq<char>) -> ReadingModel {
        reading_of(self.vars@, name)
    }

    /// What the snapshot says of the variable `name`.
    pub fn var(&self, name: &str) -> (r: EnvReading)
        ensures
            r@ == self.reads(name@),
    {
        let n = self.vars.len();
        let mut i: usize = 0;
        assert(self.vars@.subrange(0, n as int) == self.vars@);
        while i < n
            invariant
                i <= n == self.vars@.len(),
                reading_of(self.vars@, name@) == reading_of(
                    self.vars@.subrange(i as int, n as int),
                    name@,
                ),
            decreases n - i,
        {
            let ghost rest = self.vars@.subrange(i as int, n as int);
            assert(rest.drop_first() == self.vars@.subrange(i + 1, n as int));
            if same_text(self.vars[i].0.as_str(), name) {
                return match &self.vars[i].1 {
                    EnvReading::Value(value) => EnvReading::Value(value.clone()),
                    EnvReading::NotUnicode => EnvReading::NotUnicode,
                    EnvReading::NotPresent => EnvReading::NotPresent,
                };
            }
            i = i + 1;
        }
        EnvReading::NotPresent
    }
}

/// The variable is set to something that is not blank.
pub open spec fn present(reading: ReadingModel) -> bool {
    match reading {
        ReadingModel::Value(value) => trim(value).len() > 0,
        ReadingModel::NotUnicode => true,
        ReadingModel::NotPresent => false,
    }
}

/// The value of the variable, where that is text and not blank.
pub open spec fn usable_value(reading: ReadingModel) -> Option<Seq<char>> {
    match reading {
        ReadingModel::Value(value) => if trim(value).len() > 0 {
            Some(value)
        } else {
            None
        },
        _ => None,
    }
}

/// Whether the variable `name` is set to something that is not blank.
pub fn env_var_present(env: &EnvSnapshot, name: &str) -> (r: bool)
    ensures
        r == present(env.reads(name@)),
{
    match env.var(name) {
        EnvReading::Value(value) => !trimmed(value.as_str()).as_str().is_empty(),
        EnvReading::NotUnicode => true,
        EnvReading::NotPresent => false,
    }
}

/// The value of the variable `name`, where that is text and not blank.
pub fn usable_env_value(env: &EnvSnapshot, name: &str) -> (r: Option<String>)
    ensures
        r.deep_view() == usable_value(env.reads(name@)),
{
    match env.var(name) {
        EnvReading::Value(value) => {
            if trimmed(value.as_str()).as_str().is_empty() {
                None
            } else {
                Some(value)
            }
        },
        _ => None,
    }
}

/// Entry `i` of `vars` is the first of the variable `name`.
pub open spec fn first_entry_of(
    vars: Seq<(String, EnvReading)>,
    name: Seq<char>,
    i: int,
) -> bool {
    &&& 0 <= i < vars.len()
    &&& vars[i].0@ == name
    &&& forall|j: int| 0 <= j < i ==> (#[trigger] vars[j]).0@ != name
}

/// A snapshot says of a variable what its first entry says, and that it is not
/// present where it has none.
pub proof fn law_the_first_entry_of_a_variable_counts(
    vars: Seq<(String, EnvReading)>,
    name: Seq<char>,
    i: int,
)
    ensures
        first_entry_of(vars, name, i) ==> reading_of(vars, name) == vars[i].1@,
        (forall|j: int| 0 <= j < vars.len() ==> (#[trigger] vars[j]).0@ != name) ==> reading_of(
            vars,
            name,
        ) == ReadingModel::NotPresent,
    decreases vars.len(),
{
    if vars.len() > 0 {
        let rest = vars.drop_first();
        law_the_first_entry_of_a_variable_counts(rest, name, i - 1);
        if first_entry_of(vars, name, i) && i > 0 {
            assert(vars[0].0@ != name);
            assert(rest[i - 1] == vars[i]);
            assert forall|j: int| 0 <= j < i - 1 implies (#[trigger] rest[j]).0@ != name by {
                assert(rest[j] == vars[j + 1]);
            }
        }
        if forall|j: int| 0 <= j < vars.len() ==> (#[trigger] vars[j]).0@ != name {
            assert(vars[0].0@ != name);
            assert forall|j: int| 0 <= j < rest.len() implies (#[trigger] rest[j]).0@ != name by {
                assert(rest[j] == vars[j + 1]);
            }
        }
    }
}

/// A variable whose value is not blank is present, and its value is used character
/// by character as it is, with the white space in and around it.
pub proof fn law_values_are_used_as_they_are(value: Seq<char>)
    ensures
        !blank(value) ==> present(ReadingModel::Value(value)) && usable_value(
            ReadingModel::Value(value),
        ) == Some(value),
        blank(value) ==> !present(ReadingModel::Value(value)) && usable_value(
            ReadingModel::Value(value),
        ) is None,
{
    lemma_blank_is_trimmed_away(value);
}

/// A variable that holds no Unicode is present, but of no use; one that is not there
/// is neither.
pub proof fn law_only_texts_are_of_use()
    ensures
        present(ReadingModel::NotUnicode),
        usable_value(ReadingModel::NotUnicode) is None,
        !present(ReadingModel::NotPresent),
        usable_value(ReadingModel::NotPresent) is None,
{
}

} // verus!
