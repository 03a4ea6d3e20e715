//! What `init` writes.
use crate::init::detector;
use crate::init::detector::{Facts, Finding};
use crate::init::detectors;
use crate::init::detectors::detect_all;
use crate::init::render;
use crate::init::template;
use crate::init::template::Template;
use crate::paths;
use crate::text::concat;
use crate::lists;
use vstd::prelude::*;

verus! {

/// What `init` writes, and what it tells the user.
#[derive(Debug, PartialEq, Eq)]
pub struct InitPlan {
    pub target: String,
    pub body: String,
    pub notes: Vec<String>,
}

/// The name that a project gets: that of its directory.
pub open spec fn project_name(project_root: Seq<char>) -> Seq<char> {
    match paths::file_name_of(project_root) {
        Some(n) => n,
        None => "project"@,
    }
}

/// The notes of the first `n` findings.
pub open spec fn notes_of(findings: Seq<detector::FindingModel>, n: nat) -> Seq<Seq<char>>
    decreases n,
{
    if n == 0 {
        seq![]
    } else {
        notes_of(findings, (n - 1) as nat) + findings[n - 1].notes
    }
}

fn collect_notes(findings: &Vec<Finding>) -> (res: Vec<String>)
    ensures
        res.deep_view() == notes_of(findings.deep_view(), findings@.len()),
{
    let ghost all = findings.deep_view();
    let mut out: Vec<String> = Vec::new();
    let mut i: usize = 0;
    assert(out.deep_view() =~= notes_of(all, 0));
    while i < findings.len()
        invariant
            i <= findings@.len(),
            all == findings.deep_view(),
            out.deep_view() == notes_of(all, i as nat),
        decreases findings@.len() - i,
    {
        let ghost before = out.deep_view();
        assert(all[i as int] == findings@[i as int].deep_view());
        let mut more = crate::config::model::copy_strings(&findings[i].notes);
        let ghost added = more.deep_view();
        out.append(&mut more);
        assert(out.deep_view() =~= before + added);
        i += 1;
    }
    out
}

/// Where the configuration of a project is.
pub fn target_path(project_root: &str) -> (res: String)
    ensures
        res@ == paths::joined_path(project_root@, "ampelos.toml"@),
{
    paths::join_path(project_root, "ampelos.toml")
}

/// Decides what to write: a template where one is asked for, else what the
/// detectors make of the project. An existing configuration is never overwritten.
pub fn plan(
    project_root: &str,
    exists: bool,
    template: Option<Template>,
    facts: &Facts,
) -> (res: Result<InitPlan, String>)
    ensures
        ({
            let target = paths::joined_path(project_root@, "ampelos.toml"@);
            let name = project_name(project_root@);
            let findings = detectors::found(*facts, detectors::all_detectors().len());
            match res {
                Err(e) => exists && e@ == target + " already exists; refusing to overwrite"@,
                Ok(p) => !exists && p.target@ == target && match template {
                    Some(t) => p.body@ == template::head(t) + name + template::tail(t)
                        && p.notes@.len() == 0,
                    None => p.body@ == render::config_text(name, findings) && p.notes.deep_view()
                        == notes_of(findings, findings.len()),
                },
            }
        }),
{
    let target = target_path(project_root);
    if exists {
        return Err(concat(target.as_str(), " already exists; refusing to overwrite"));
    }
    let name = match paths::file_name(project_root) {
        Some(n) => n,
        None => "project".to_owned(),
    };
    match template {
        Some(t) => {
            let body = template::render(name.as_str(), t);
            Ok(InitPlan { target, body, notes: Vec::new() })
        },
        None => {
            let findings = detect_all(facts);
            let notes = collect_notes(&findings);
            let body = render::render(name.as_str(), &findings);
            assert(findings.deep_view().len() == findings@.len());
            Ok(InitPlan { target, body, notes })
        },
    }
}

/// Every note of every finding is told, in order.
pub proof fn law_every_note_is_told(findings: Seq<detector::FindingModel>)
    ensures
        lists::chains(
            notes_of(findings, findings.len()),
            |i: int| findings[i].notes,
            findings.len(),
        ),
{
    lemma_notes_of(findings, findings.len());
}

proof fn lemma_notes_of(findings: Seq<detector::FindingModel>, n: nat)
    requires
        n <= findings.len(),
    ensures
        lists::chains(notes_of(findings, n), |i: int| findings[i].notes, n),
    decreases n,
{
    let part = |i: int| findings[i].notes;
    if n == 0 {
        lists::lemma_chains_none(part);
    } else {
        let m = (n - 1) as nat;
        lemma_notes_of(findings, m);
        lists::lemma_chains_next(notes_of(findings, m), part, m);
    }
}

/// A project goes by the name of its directory.
pub proof fn law_projects_go_by_their_directory(root: Seq<char>)
    ensures
        paths::file_name_of(root) is Some ==> project_name(root) == paths::file_name_of(root)->0,
        paths::file_name_of(root) is None ==> project_name(root) == "project"@,
{
}

} // verus!
