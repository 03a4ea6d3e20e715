//! Whether a build server runs the program.
use vstd::prelude::*;

verus! {

/// The variables that build servers set.
pub open spec fn server_vars() -> Seq<Seq<char>> {
    seq![
        "CI"@,
        "GITHUB_ACTIONS"@,
        "GITLAB_CI"@,
        "BUILDKITE"@,
        "CIRCLECI"@,
        "JENKINS_URL"@,
    ]
}

/// The variables that build servers set.
pub fn ci_vars() -> (res: Vec<&'static str>)
    ensures
        res.deep_view() == server_vars(),
{
    let res = vec!["CI", "GITHUB_ACTIONS", "GITLAB_CI", "BUILDKITE", "CIRCLECI", "JENKINS_URL"];
    assert(res.deep_view() =~= server_vars());
    res
}

/// Whether a variable is set to something.
pub open spec fn is_set(value: Option<String>) -> bool {
    value matches Some(v) && v@.len() > 0
}

/// Whether a build server runs the program, given the values of [`ci_vars`]: one of
/// them is set to something.
pub fn is_ci(values: &Vec<Option<String>>) -> (res: bool)
    ensures
        res == (exists|i: int| 0 <= i < values@.len() && #[trigger] is_set(values@[i])),
{
    let mut i: usize = 0;
    while i < values.len()
        invariant
            i <= values@.len(),
            forall|k: int| 0 <= k < i ==> !#[trigger] is_set(values@[k]),
        decreases values@.len() - i,
    {
        if let Some(v) = &values[i] {
            if !v.as_str().is_empty() {
                assert(is_set(values@[i as int]));
                return true;
            }
        }
        i += 1;
    }
    false
}

/// A variable counts as set only where it has a value that is not empty.
pub proof fn law_empty_variables_do_not_count(value: Option<String>)
    ensures
        is_set(value) <==> value is Some && value->0@.len() > 0,
{
}

/// Six build servers are known by the variables that they set.
pub proof fn law_known_build_servers()
    ensures
        server_vars().len() == 6,
        server_vars().contains("CI"@) && server_vars().contains("GITHUB_ACTIONS"@),
        server_vars().contains("GITLAB_CI"@) && server_vars().contains("BUILDKITE"@),
        server_vars().contains("CIRCLECI"@) && server_vars().contains("JENKINS_URL"@),
{
    let v = server_vars();
    assert(v[0] == "CI"@ && v[1] == "GITHUB_ACTIONS"@ && v[2] == "GITLAB_CI"@);
    assert(v[3] == "BUILDKITE"@ && v[4] == "CIRCLECI"@ && v[5] == "JENKINS_URL"@);
}

} // verus!
