//! The environment that a project's commands run in: how each variable that the
//! configuration names gets its value.
use crate::config::model::EnvSpec;
use crate::text;
use crate::textmap::TextMap;
use vstd::prelude::*;

verus! {

/// The variable that holds the offset of the worktree.
pub const WORKTREE_OFFSET: &'static str = "KEEL_WORKTREE_OFFSET";

/// Why the environment cannot be made up.
#[derive(Debug, PartialEq, Eq)]
pub enum RuntimeError {
    /// A variable is required and has no value: its name.
    RequiredEnvMissing(String),
}

impl RuntimeError {
    /// The fault in words.
    pub open spec fn text(&self) -> Seq<char> {
        match self {
            RuntimeError::RequiredEnvMissing(name) => "required environment variable `"@ + name@
                + "` has no value"@,
        }
    }

    /// The fault in words.
    pub fn message(&self) -> (res: String)
        ensures
            res@ == self.text(),
    {
        match self {
            RuntimeError::RequiredEnvMissing(name) => text::concat3(
                "required environment variable `",
                name.as_str(),
                "` has no value",
            ),
        }
    }
}

/// The value that a variable has so far.
pub open spec fn known(vars: Map<Seq<char>, String>, name: Seq<char>) -> Option<Seq<char>> {
    if vars.contains_key(name) {
        Some(vars[name]@)
    } else {
        None
    }
}

/// The sum of two numbers in decimal. Where there is no second one, or a text is no
/// number, or the sum is none that sixty-four bits hold, it is the first text.
pub open spec fn summed(base: Seq<char>, offset: Option<Seq<char>>) -> Seq<char> {
    match (text::signed_value(base), offset) {
        (Some(b), Some(found)) => match text::signed_value(found) {
            Some(o) if i64::MIN <= b + o <= i64::MAX => text::signed_digits(b + o),
            _ => base,
        },
        _ => base,
    }
}

/// The value that the offset of `spec` is read from.
pub open spec fn offset_text(spec: EnvSpec, vars: Map<Seq<char>, String>) -> Option<Seq<char>> {
    match spec.offset {
        Some(name) => known(vars, name@),
        None => None,
    }
}

/// The value that a variable gets before any command is asked: the one that is
/// written down, else the sum of base and offset, else the one that it has.
pub open spec fn early_value(
    name: Seq<char>,
    spec: EnvSpec,
    vars: Map<Seq<char>, String>,
) -> Option<Seq<char>> {
    match (spec.value, spec.base) {
        (Some(value), _) => Some(value@),
        (None, Some(base)) => Some(summed(base@, offset_text(spec, vars))),
        (None, None) => known(vars, name),
    }
}

/// The value that a variable gets where its command, if one was asked, printed
/// `output`: without an early value what the command printed, trimmed, else the
/// default.
pub open spec fn value_of(
    name: Seq<char>,
    spec: EnvSpec,
    vars: Map<Seq<char>, String>,
    output: Option<Seq<char>>,
) -> Option<Seq<char>> {
    match (early_value(name, spec, vars), spec.from_command, output) {
        (Some(value), _, _) => Some(value),
        (None, Some(_), Some(printed)) => Some(text::trimmed(printed)),
        _ => match spec.default {
            Some(default) => Some(default@),
            None => None,
        },
    }
}

fn sum(base: &str, offset: Option<&String>) -> (res: String)
    ensures
        res@ == summed(
            base@,
            match offset {
                Some(found) => Some(found@),
                None => None,
            },
        ),
{
    match (text::parse_i64(base), offset) {
        (Some(b), Some(found)) => match text::parse_i64(found.as_str()) {
            Some(o) => match b.checked_add(o) {
                Some(total) => text::signed_decimal(total),
                None => base.to_owned(),
            },
            None => base.to_owned(),
        },
        _ => base.to_owned(),
    }
}

/// The variables of the process and, over them, those that have been given a value.
#[derive(Debug, PartialEq, Eq)]
pub struct Env {
    /// What every variable is so far.
    pub vars: TextMap<String>,
    /// The variables that have been given a value, in that order.
    pub given: Vec<(String, String)>,
}

/// Names and values.
pub open spec fn given_models(given: Seq<(String, String)>) -> Seq<(Seq<char>, Seq<char>)> {
    given.map_values(|v: (String, String)| (v.0@, v.1@))
}

impl Env {
    /// Names and values of the variables that have been given a value.
    pub open spec fn model(&self) -> Seq<(Seq<char>, Seq<char>)> {
        given_models(self.given@)
    }

    /// Whether `self` is `before` with one more variable given.
    pub open spec fn gives(&self, before: Self, name: Seq<char>, value: Seq<char>) -> bool {
        &&& self.model() == before.model().push((name, value))
        &&& self.vars@.dom() == before.vars@.dom().insert(name)
        &&& forall|k: Seq<char>| #[trigger]
            self.vars@.contains_key(k) ==> self.vars@[k]@ == if k == name {
                value
            } else {
                before.vars@[k]@
            }
    }

    fn give(&mut self, name: &str, value: String)
        ensures
            final(self).gives(*old(self), name@, value@),
    {
        let ghost before = self.model();
        self.given.push((name.to_owned(), value.clone()));
        self.vars.insert(name.to_owned(), value);
        assert(self.model() =~= before.push((name@, value@)));
    }

    /// The environment of a worktree: the variables of the process, and the offset of
    /// the worktree.
    pub fn new(process: TextMap<String>, offset: u32) -> (res: Self)
        ensures
            res.model() == seq![(WORKTREE_OFFSET@, text::digits(offset as nat))],
            res.vars@.dom() == process@.dom().insert(WORKTREE_OFFSET@),
            forall|k: Seq<char>| #[trigger]
                res.vars@.contains_key(k) ==> res.vars@[k]@ == if k == WORKTREE_OFFSET@ {
                    text::digits(offset as nat)
                } else {
                    process@[k]@
                },
    {
        let mut env = Env { vars: process, given: Vec::new() };
        assert(env.model() =~= Seq::empty());
        env.give(WORKTREE_OFFSET, text::decimal(offset as u64));
        env
    }

    fn lookup(&self, name: &str) -> (res: Option<&String>)
        ensures
            known(self.vars@, name@) == match res {
                Some(value) => Some(value@),
                None => None,
            },
    {
        self.vars.get(name)
    }

    fn early(&self, name: &str, spec: &EnvSpec) -> (res: Option<String>)
        ensures
            early_value(name@, *spec, self.vars@) == match res {
                Some(value) => Some(value@),
                None => None,
            },
    {
        if let Some(value) = &spec.value {
            return Some(value.clone());
        }
        if let Some(base) = &spec.base {
            let offset = match &spec.offset {
                Some(from) => self.lookup(from.as_str()),
                None => None,
            };
            return Some(sum(base.as_str(), offset));
        }
        match self.lookup(name) {
            Some(value) => Some(value.clone()),
            None => None,
        }
    }

    /// The command to ask for the value of a variable: none where the variable gets
    /// its value without one.
    pub fn wanted_command(&self, name: &str, spec: &EnvSpec) -> (res: Option<String>)
        ensures
            match res {
                Some(command) => early_value(name@, *spec, self.vars@) is None
                    && spec.from_command is Some && spec.from_command->0@ == command@,
                None => early_value(name@, *spec, self.vars@) is Some
                    || spec.from_command is None,
            },
    {
        match (self.early(name, spec), &spec.from_command) {
            (None, Some(command)) => Some(command.clone()),
            _ => None,
        }
    }

    /// Gives a variable its value. One without a value is left as it is, or is a fault
    /// where it is required.
    pub fn resolve(&mut self, name: &str, spec: &EnvSpec, output: Option<&str>) -> (res: Result<
        (),
        RuntimeError,
    >)
        ensures
            ({
                let printed = match output {
                    Some(text) => Some(text@),
                    None => None,
                };
                match (value_of(name@, *spec, old(self).vars@, printed), res) {
                    (Some(value), Ok(())) => final(self).gives(*old(self), name@, value),
                    (None, Ok(())) => !spec.required && *final(self) == *old(self),
                    (None, Err(RuntimeError::RequiredEnvMissing(missing))) => spec.required
                        && missing@ == name@ && *final(self) == *old(self),
                    (Some(_), Err(_)) => false,
                }
            }),
    {
        let value = match self.early(name, spec) {
            Some(value) => Some(value),
            None => match (&spec.from_command, output) {
                (Some(_), Some(printed)) => Some(text::trim(printed)),
                _ => match &spec.default {
                    Some(default) => Some(default.clone()),
                    None => None,
                },
            },
        };
        match value {
            Some(value) => {
                self.give(name, value);
                Ok(())
            },
            None => if spec.required {
                Err(RuntimeError::RequiredEnvMissing(name.to_owned()))
            } else {
                Ok(())
            },
        }
    }
}

/// A variable that has been given a value keeps it where nothing else is written
/// down for it: its command is not asked, and its default is not taken.
pub proof fn law_given_value_is_kept(
    before: Env,
    after: Env,
    name: Seq<char>,
    value: Seq<char>,
    spec: EnvSpec,
    output: Option<Seq<char>>,
)
    requires
        after.gives(before, name, value),
        spec.value is None,
        spec.base is None,
    ensures
        early_value(name, spec, after.vars@) == Some(value),
        value_of(name, spec, after.vars@, output) == Some(value),
{
    assert(after.vars@.dom().contains(name));
}

/// A variable's value is the first there is of: the one written down; the sum of base
/// and offset; the one that it has; what its command printed, trimmed; the default.
pub proof fn law_the_first_source_of_a_value_wins(
    name: Seq<char>,
    spec: EnvSpec,
    vars: Map<Seq<char>, String>,
    output: Option<Seq<char>>,
)
    ensures
        ({
            let value = value_of(name, spec, vars, output);
            let summing = spec.value is None && spec.base is Some;
            let having = spec.value is None && spec.base is None && vars.contains_key(name);
            let open = spec.value is None && spec.base is None && !vars.contains_key(name);
            let asking = open && spec.from_command is Some && output is Some;
            &&& spec.value is Some ==> value == Some(spec.value->0@)
            &&& summing && (spec.offset is None || !vars.contains_key(spec.offset->0@)) ==> value
                == Some(spec.base->0@)
            &&& summing && spec.offset is Some && vars.contains_key(spec.offset->0@) ==> value
                == Some(summed(spec.base->0@, Some(vars[spec.offset->0@]@)))
            &&& having ==> value == Some(vars[name]@)
            &&& asking ==> value == Some(text::trimmed(output->0))
            &&& open && !asking && spec.default is Some ==> value == Some(spec.default->0@)
            &&& open && !asking && spec.default is None ==> value is None
        }),
{
}

/// Two numbers are added up; where they cannot be, the base stands.
pub proof fn law_offsets_are_added(base: Seq<char>, offset: Seq<char>, b: int, o: int)
    requires
        text::signed_value(base) == Some(b),
        text::signed_value(offset) == Some(o),
    ensures
        i64::MIN <= b + o <= i64::MAX ==> summed(base, Some(offset)) == text::signed_digits(b + o),
        !(i64::MIN <= b + o <= i64::MAX) ==> summed(base, Some(offset)) == base,
{
}

/// Giving a variable a value changes what that variable is, and no other; it is added
/// behind those that were given before.
pub proof fn law_giving_changes_one_variable(
    before: Env,
    after: Env,
    name: Seq<char>,
    value: Seq<char>,
    other: Seq<char>,
)
    requires
        after.gives(before, name, value),
    ensures
        after.vars@.contains_key(name) && after.vars@[name]@ == value,
        other != name ==> after.vars@.contains_key(other) == before.vars@.contains_key(other),
        other != name && before.vars@.contains_key(other) ==> after.vars@[other]@
            == before.vars@[other]@,
        after.given@.len() == before.given@.len() + 1,
        after.given@.last().0@ == name,
        after.given@.last().1@ == value,
        forall|i: int|
            0 <= i < before.given@.len() ==> (#[trigger] after.given@[i]).0@ == before.given@[i].0@
                && after.given@[i].1@ == before.given@[i].1@,
{
    assert(after.vars@.dom().contains(name));
    assert(after.vars@.dom().contains(other) <==> before.vars@.dom().contains(other) || other
        == name);
    let (a, b) = (after.model(), before.model());
    assert(a.len() == b.len() + 1);
    assert(a.last() == (name, value));
    assert forall|i: int| 0 <= i < before.given@.len() implies (#[trigger] after.given@[i]).0@
        == before.given@[i].0@ && after.given@[i].1@ == before.given@[i].1@ by {
        assert(a[i] == b[i]);
    }
}

/// A missing variable is named.
pub proof fn law_missing_variables_are_named(e: RuntimeError)
    ensures
        e matches RuntimeError::RequiredEnvMissing(name) ==> e.text()
            == "required environment variable `"@ + name@ + "` has no value"@,
{
}

} // verus!
