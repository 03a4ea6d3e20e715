//! `shell`: which container to enter, and how.
use vstd::prelude::*;

verus! {

/// Where a shell is opened.
#[derive(Debug, PartialEq, Eq)]
pub enum ShellTarget {
    /// A compose service, with the arguments for docker.
    Service(Vec<String>),
    /// The devcontainer, once it is up.
    Devcontainer,
}

/// What docker runs a shell with: the user's own, in place of the one that
/// started it, so that its exit code is passed on.
pub open spec fn shell_tail() -> Seq<Seq<char>> {
    seq!["sh"@, "-c"@, "exec ${SHELL:-/bin/sh}"@]
}

/// Docker's arguments to enter a compose service.
pub fn service_argv(service: &str) -> (res: Vec<String>)
    ensures
        res.deep_view() == seq!["compose"@, "exec"@, "-it"@, service@] + shell_tail(),
{
    let res = vec![
        "compose".to_owned(),
        "exec".to_owned(),
        "-it".to_owned(),
        service.to_owned(),
        "sh".to_owned(),
        "-c".to_owned(),
        "exec ${SHELL:-/bin/sh}".to_owned(),
    ];
    assert(res.deep_view() =~= seq!["compose"@, "exec"@, "-it"@, service@] + shell_tail());
    res
}

/// Docker's arguments to enter a container.
pub fn container_argv(name: &str) -> (res: Vec<String>)
    ensures
        res.deep_view() == seq!["exec"@, "-it"@, name@] + shell_tail(),
{
    let res = vec![
        "exec".to_owned(),
        "-it".to_owned(),
        name.to_owned(),
        "sh".to_owned(),
        "-c".to_owned(),
        "exec ${SHELL:-/bin/sh}".to_owned(),
    ];
    assert(res.deep_view() =~= seq!["exec"@, "-it"@, name@] + shell_tail());
    res
}

/// What is said where there is nothing to enter.
pub const NO_TARGET: &'static str =
    "no shell target. Either enable `[devcontainer] enabled = true` in ampelos.toml, or pass `--service <name>` to enter a compose service.";

/// Decides where to open a shell: in the service that was named, else in the
/// devcontainer where the project has one.
pub fn shell_target(devcontainer_enabled: bool, service: Option<&str>) -> (res: Result<
    ShellTarget,
    String,
>)
    ensures
        match service {
            Some(name) => res matches Ok(ShellTarget::Service(argv)) && argv.deep_view() == seq![
                "compose"@,
                "exec"@,
                "-it"@,
                name@,
            ] + shell_tail(),
            None => if devcontainer_enabled {
                res == Ok::<ShellTarget, String>(ShellTarget::Devcontainer)
            } else {
                res matches Err(e) && e@ == NO_TARGET@
            },
        },
{
    if let Some(name) = service {
        return Ok(ShellTarget::Service(service_argv(name)));
    }
    if !devcontainer_enabled {
        return Err(NO_TARGET.to_owned());
    }
    Ok(ShellTarget::Devcontainer)
}

/// A shell takes the place of the one that starts it.
pub proof fn law_the_shell_is_the_users_own()
    ensures
        shell_tail().len() == 3,
        shell_tail()[0] == "sh"@ && shell_tail()[1] == "-c"@,
        shell_tail()[2] == "exec ${SHELL:-/bin/sh}"@,
{
}

} // verus!
