//! `[agents]` configuration: repositories that ship agent instructions and
//! skills, with per-source overrides on top of the upstream manifest.
use crate::text::concat3;
use vstd::prelude::*;

verus! {

/// Where a source's manifest is, unless it says otherwise.
pub const DEFAULT_MANIFEST_PATH: &'static str = "keel-agents.toml";

/// Top-level `[agents]` table.
#[derive(Debug, PartialEq, Eq)]
pub struct AgentsConfig {
    /// Whether the install flow applies agent files as a step of its own.
    pub install_with_setup: bool,
    /// Upstream manifest path for the sources that name none.
    pub manifest_path: String,
    /// Upstream sources in declaration order. When two of them resolve the same
    /// destination, the later one wins.
    pub sources: Vec<SourceSpec>,
}

impl Default for AgentsConfig {
    fn default() -> (res: Self)
        ensures
            res.install_with_setup,
            res.manifest_path@ == DEFAULT_MANIFEST_PATH@,
            res.sources@.len() == 0,
    {
        AgentsConfig {
            install_with_setup: true,
            manifest_path: DEFAULT_MANIFEST_PATH.to_owned(),
            sources: Vec::new(),
        }
    }
}

/// One upstream source.
#[derive(Debug, PartialEq, Eq)]
pub struct SourceSpec {
    /// Identifier, unique across sources.
    pub name: String,
    /// Git URL or file system path.
    pub repo: String,
    /// Tag, branch or full commit id.
    pub rev: String,
    /// Directory inside the clone that everything is relative to.
    pub subpath: Option<String>,
    /// Override of [`AgentsConfig::manifest_path`].
    pub manifest_path: Option<String>,
    /// Overrides applied on top of the upstream manifest.
    pub overrides: Vec<MappingOverride>,
}

/// Override of one upstream mapping, selected by its destination. Exactly one of
/// `action` and `relocate` is set.
#[derive(Debug, PartialEq, Eq)]
pub struct MappingOverride {
    /// The upstream destination that this override is for.
    pub dest: String,
    /// Drop the mapping.
    pub action: Option<MappingOverrideKind>,
    /// Write to this destination instead.
    pub relocate: Option<String>,
}

#[derive(Debug, Clone, Copy, PartialEq, Eq, Structural)]
pub enum MappingOverrideKind {
    Skip,
}

/// The validated form of a [`MappingOverride`].
#[derive(Debug, PartialEq, Eq)]
pub enum ResolvedOverride {
    Skip,
    Relocate(String),
}

/// What an override does, as text.
pub ghost enum OverrideEffect {
    Skip,
    Relocate(Seq<char>),
}

impl View for ResolvedOverride {
    type V = OverrideEffect;

    open spec fn view(&self) -> OverrideEffect {
        match self {
            ResolvedOverride::Skip => OverrideEffect::Skip,
            ResolvedOverride::Relocate(to) => OverrideEffect::Relocate(to@),
        }
    }
}

impl MappingOverride {
    /// What this override does, or why it is malformed.
    pub open spec fn effect(&self) -> Result<OverrideEffect, Seq<char>> {
        let head = "agents.sources.overrides[dest=\""@ + self.dest@;
        match (self.action, self.relocate) {
            (Some(_), None) => Ok(OverrideEffect::Skip),
            (None, Some(to)) => if to@.len() > 0 {
                Ok(OverrideEffect::Relocate(to@))
            } else {
                Err(head + "\"]: `relocate` must be a non-empty path"@)
            },
            (None, None) => Err(
                head
                    + "\"]: must set either `action = \"skip\"` or `relocate = \"<path>\"`"@,
            ),
            (Some(_), Some(_)) => Err(
                head + "\"]: `action` and `relocate` are mutually exclusive"@,
            ),
        }
    }

    /// The validated form. Fails unless exactly one of `action` and a non-empty
    /// `relocate` is set.
    pub fn resolved(&self) -> (res: Result<ResolvedOverride, String>)
        ensures
            match res {
                Ok(r) => self.effect() == Ok::<OverrideEffect, Seq<char>>(r@),
                Err(e) => self.effect() == Err::<OverrideEffect, Seq<char>>(e@),
            },
    {
        let head = "agents.sources.overrides[dest=\"";
        match (&self.action, &self.relocate) {
            (Some(_), None) => Ok(ResolvedOverride::Skip),
            (None, Some(to)) => {
                if to.as_str().is_empty() {
                    Err(
                        concat3(
                            head,
                            self.dest.as_str(),
                            "\"]: `relocate` must be a non-empty path",
                        ),
                    )
                } else {
                    Ok(ResolvedOverride::Relocate(to.clone()))
                }
            },
            (None, None) => Err(
                concat3(
                    head,
                    self.dest.as_str(),
                    "\"]: must set either `action = \"skip\"` or `relocate = \"<path>\"`",
                ),
            ),
            (Some(_), Some(_)) => Err(
                concat3(
                    head,
                    self.dest.as_str(),
                    "\"]: `action` and `relocate` are mutually exclusive",
                ),
            ),
        }
    }
}

/// Why the first malformed one of the first `n` overrides is malformed.
pub open spec fn overrides_error(overrides: Seq<MappingOverride>, n: nat) -> Option<Seq<char>>
    decreases n,
{
    if n == 0 {
        None
    } else {
        match overrides_error(overrides, (n - 1) as nat) {
            Some(e) => Some(e),
            None => match overrides[n - 1].effect() {
                Ok(_) => None,
                Err(e) => Some(e),
            },
        }
    }
}

/// Whether one of the first `n` sources is named `name`.
pub open spec fn source_named(sources: Seq<SourceSpec>, n: int, name: Seq<char>) -> bool {
    exists|i: int| 0 <= i < n && (#[trigger] sources[i]).name@ == name
}

/// Why source `i` is refused, given the sources before it.
pub open spec fn source_error(sources: Seq<SourceSpec>, i: int) -> Option<Seq<char>> {
    let s = sources[i];
    if s.name@.len() == 0 {
        Some("agents.sources entry is missing `name`"@)
    } else if source_named(sources, i, s.name@) {
        Some("duplicate agents source name `"@ + s.name@ + "`"@)
    } else if s.repo@.len() == 0 {
        Some("agents.sources[name=\""@ + s.name@ + "\"]: `repo` must not be empty"@)
    } else if s.rev@.len() == 0 {
        Some("agents.sources[name=\""@ + s.name@ + "\"]: `rev` must not be empty"@)
    } else {
        overrides_error(s.overrides@, s.overrides@.len())
    }
}

/// The error of the first refused source among the first `n`.
pub open spec fn sources_error(sources: Seq<SourceSpec>, n: nat) -> Option<Seq<char>>
    decreases n,
{
    if n == 0 {
        None
    } else {
        match sources_error(sources, (n - 1) as nat) {
            Some(e) => Some(e),
            None => source_error(sources, n - 1),
        }
    }
}

/// A refused source stays refused whatever follows it.
proof fn lemma_sources_error_stays(sources: Seq<SourceSpec>, i: nat, n: nat)
    requires
        i <= n,
        sources_error(sources, i) is Some,
    ensures
        sources_error(sources, n) == sources_error(sources, i),
    decreases n,
{
    if i < n {
        lemma_sources_error_stays(sources, i, (n - 1) as nat);
    }
}

/// A malformed override stays so whatever follows it.
proof fn lemma_overrides_error_stays(overrides: Seq<MappingOverride>, i: nat, n: nat)
    requires
        i <= n,
        overrides_error(overrides, i) is Some,
    ensures
        overrides_error(overrides, n) == overrides_error(overrides, i),
    decreases n,
{
    if i < n {
        lemma_overrides_error_stays(overrides, i, (n - 1) as nat);
    }
}

/// Why the first malformed override is malformed.
pub fn first_malformed(overrides: &Vec<MappingOverride>) -> (res: Result<(), String>)
    ensures
        match res {
            Ok(_) => overrides_error(overrides@, overrides@.len()) is None,
            Err(e) => overrides_error(overrides@, overrides@.len()) == Some(e@),
        },
{
    let mut i: usize = 0;
    while i < overrides.len()
        invariant
            i <= overrides@.len(),
            overrides_error(overrides@, i as nat) is None,
        decreases overrides@.len() - i,
    {
        match overrides[i].resolved() {
            Ok(_) => {},
            Err(e) => {
                proof {
                    lemma_overrides_error_stays(overrides@, (i + 1) as nat, overrides@.len());
                }
                return Err(e);
            },
        }
        i += 1;
    }
    Ok(())
}

impl AgentsConfig {
    /// Whether one of the first `n` sources is named `name`.
    fn has_source(&self, n: usize, name: &str) -> (res: bool)
        requires
            n <= self.sources@.len(),
        ensures
            res == source_named(self.sources@, n as int, name@),
    {
        let mut i: usize = 0;
        while i < n
            invariant
                i <= n <= self.sources@.len(),
                !source_named(self.sources@, i as int, name@),
            decreases n - i,
        {
            if *self.sources[i].name.as_str() == *name {
                return true;
            }
            i += 1;
        }
        false
    }

    /// Why source `i` is refused, if it is.
    fn check_source(&self, i: usize) -> (res: Result<(), String>)
        requires
            i < self.sources@.len(),
        ensures
            match res {
                Ok(_) => source_error(self.sources@, i as int) is None,
                Err(e) => source_error(self.sources@, i as int) == Some(e@),
            },
    {
        let s = &self.sources[i];
        let name = s.name.as_str();
        if name.is_empty() {
            return Err("agents.sources entry is missing `name`".to_owned());
        }
        if self.has_source(i, name) {
            return Err(concat3("duplicate agents source name `", name, "`"));
        }
        if s.repo.as_str().is_empty() {
            return Err(
                concat3("agents.sources[name=\"", name, "\"]: `repo` must not be empty"),
            );
        }
        if s.rev.as_str().is_empty() {
            return Err(
                concat3("agents.sources[name=\"", name, "\"]: `rev` must not be empty"),
            );
        }
        first_malformed(&s.overrides)
    }

    /// Structural validation: every source has a name of its own, a repository
    /// and a revision, and its overrides are well formed. The error is that of
    /// the first source that fails.
    pub fn validate(&self) -> (res: Result<(), String>)
        ensures
            match res {
                Ok(_) => sources_error(self.sources@, self.sources@.len()) is None,
                Err(e) => sources_error(self.sources@, self.sources@.len()) == Some(e@),
            },
    {
        let mut i: usize = 0;
        while i < self.sources.len()
            invariant
                i <= self.sources@.len(),
                sources_error(self.sources@, i as nat) is None,
            decreases self.sources@.len() - i,
        {
            match self.check_source(i) {
                Ok(_) => {},
                Err(e) => {
                    proof {
                        lemma_sources_error_stays(
                            self.sources@,
                            (i + 1) as nat,
                            self.sources@.len(),
                        );
                    }
                    return Err(e);
                },
            }
            i += 1;
        }
        Ok(())
    }
}

/// Among the sources of a valid configuration no two share a name.
pub proof fn law_valid_source_names_are_distinct(sources: Seq<SourceSpec>, i: int, j: int)
    requires
        sources_error(sources, sources.len()) is None,
        0 <= i < j < sources.len(),
    ensures
        sources[i].name@ != sources[j].name@,
        sources[j].name@.len() > 0,
{
    if sources_error(sources, (j + 1) as nat) is Some {
        lemma_sources_error_stays(sources, (j + 1) as nat, sources.len());
    }
    assert(source_error(sources, j) is None) by {
        if sources_error(sources, j as nat) is Some {
            lemma_sources_error_stays(sources, j as nat, sources.len());
        }
    }
}

/// An override is well formed exactly where it either skips a file or gives it another
/// place, and not both.
pub proof fn law_overrides_do_one_thing(over: MappingOverride)
    ensures
        over.effect() is Ok <==> (over.action is Some && over.relocate is None) || (over.action
            is None && over.relocate is Some && over.relocate->0@.len() > 0),
        over.effect() is Ok && over.action is Some ==> over.effect()->Ok_0 == OverrideEffect::Skip,
        over.effect() is Ok && over.action is None ==> over.effect()->Ok_0
            == OverrideEffect::Relocate(over.relocate->0@),
{
}

/// Whether a source by itself is in order.
pub open spec fn complete(source: SourceSpec) -> bool {
    &&& source.name@.len() > 0
    &&& source.repo@.len() > 0
    &&& source.rev@.len() > 0
    &&& forall|k: int|
        0 <= k < source.overrides@.len() ==> (#[trigger] source.overrides@[k]).effect() is Ok
}

/// Sources are accepted exactly where each of them has a name that no other has, a
/// repository, a revision and well-formed overrides.
pub proof fn law_accepted_sources(sources: Seq<SourceSpec>)
    ensures
        sources_error(sources, sources.len()) is None <==> {
            &&& forall|i: int| 0 <= i < sources.len() ==> complete(#[trigger] sources[i])
            &&& forall|i: int, j: int|
                0 <= i < j < sources.len() ==> (#[trigger] sources[i]).name@ != (
                #[trigger] sources[j]).name@
        },
{
    lemma_sources_error(sources, sources.len());
}

proof fn lemma_overrides_error(overrides: Seq<MappingOverride>, n: nat)
    requires
        n <= overrides.len(),
    ensures
        overrides_error(overrides, n) is None <==> forall|k: int|
            0 <= k < n ==> (#[trigger] overrides[k]).effect() is Ok,
    decreases n,
{
    if n > 0 {
        lemma_overrides_error(overrides, (n - 1) as nat);
    }
}

proof fn lemma_sources_error(sources: Seq<SourceSpec>, n: nat)
    requires
        n <= sources.len(),
    ensures
        sources_error(sources, n) is None <==> {
            &&& forall|i: int| 0 <= i < n ==> complete(#[trigger] sources[i])
            &&& forall|i: int, j: int|
                0 <= i < j < n ==> (#[trigger] sources[i]).name@ != (#[trigger] sources[j]).name@
        },
    decreases n,
{
    if n > 0 {
        let m = n - 1;
        lemma_sources_error(sources, m as nat);
        let s = sources[m];
        lemma_overrides_error(s.overrides@, s.overrides@.len());
        if source_named(sources, m, s.name@) {
            let i = choose|i: int| 0 <= i < m && (#[trigger] sources[i]).name@ == s.name@;
            assert(sources[i].name@ == sources[m].name@);
        } else {
            assert forall|i: int| 0 <= i < m implies (#[trigger] sources[i]).name@ != s.name@ by {}
        }
        assert(source_error(sources, m) is None <==> complete(s) && !source_named(
            sources,
            m,
            s.name@,
        ));
    }
}

/// An override does what it says.
pub proof fn law_overrides_say_what_they_do(o: ResolvedOverride)
    ensures
        o is Skip <==> o@ is Skip,
        o matches ResolvedOverride::Relocate(to) ==> o@ == OverrideEffect::Relocate(to@),
{
}

/// Why an override is malformed: it does both, neither, or leads nowhere.
pub proof fn law_malformed_overrides_are_explained(o: MappingOverride)
    ensures
        ({
            let head = "agents.sources.overrides[dest=\""@ + o.dest@;
            &&& o.action is Some && o.relocate is Some ==> o.effect() == Err::<
                OverrideEffect,
                Seq<char>,
            >(head + "\"]: `action` and `relocate` are mutually exclusive"@)
            &&& o.action is None && o.relocate is None ==> o.effect() == Err::<
                OverrideEffect,
                Seq<char>,
            >(head + "\"]: must set either `action = \"skip\"` or `relocate = \"<path>\"`"@)
            &&& o.action is None && o.relocate is Some && o.relocate->0@.len() == 0 ==> o.effect()
                == Err::<OverrideEffect, Seq<char>>(
                head + "\"]: `relocate` must be a non-empty path"@,
            )
        }),
{
}

/// Why a source is refused: it has no name, one that an earlier source has, no
/// repository, no revision, or a malformed override, the first of these.
pub proof fn law_refused_sources_are_explained(sources: Seq<SourceSpec>, i: int)
    requires
        0 <= i < sources.len(),
    ensures
        ({
            let s = sources[i];
            let error = source_error(sources, i);
            let named = s.name@.len() > 0;
            let taken = exists|k: int| 0 <= k < i && (#[trigger] sources[k]).name@ == s.name@;
            let head = "agents.sources[name=\""@ + s.name@;
            &&& !named ==> error == Some("agents.sources entry is missing `name`"@)
            &&& named && taken ==> error == Some(
                "duplicate agents source name `"@ + s.name@ + "`"@,
            )
            &&& named && !taken && s.repo@.len() == 0 ==> error == Some(
                head + "\"]: `repo` must not be empty"@,
            )
            &&& named && !taken && s.repo@.len() > 0 && s.rev@.len() == 0 ==> error == Some(
                head + "\"]: `rev` must not be empty"@,
            )
            &&& named && !taken && s.repo@.len() > 0 && s.rev@.len() > 0 ==> error
                == overrides_error(s.overrides@, s.overrides@.len())
        }),
{
}

/// The first refused source is the one that is reported, and so is the first malformed
/// override.
pub proof fn law_the_first_refusal_is_reported(
    sources: Seq<SourceSpec>,
    overrides: Seq<MappingOverride>,
    n: nat,
)
    ensures
        sources_error(sources, 0) is None && overrides_error(overrides, 0) is None,
        sources_error(sources, n) is Some ==> sources_error(sources, n + 1) == sources_error(
            sources,
            n,
        ),
        sources_error(sources, n) is None ==> sources_error(sources, n + 1) == source_error(
            sources,
            n as int,
        ),
        overrides_error(overrides, n) is Some ==> overrides_error(overrides, n + 1)
            == overrides_error(overrides, n),
        overrides_error(overrides, n) is None && overrides[n as int].effect() is Err ==>
            overrides_error(overrides, n + 1) == Some(overrides[n as int].effect()->Err_0),
        overrides_error(overrides, n) is None && overrides[n as int].effect() is Ok ==>
            overrides_error(overrides, n + 1) is None,
{
}

} // verus!
