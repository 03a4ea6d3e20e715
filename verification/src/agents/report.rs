//! What `agents` subcommands print.
use crate::agents::state::{AgentsState, AppliedFile, SourceRecord};
use crate::config::agents::SourceSpec;
use crate::paths;
use crate::text;
use crate::text::{concat, concat3};
use vstd::prelude::*;

verus! {

/// A destination that several sources declare.
#[derive(Debug, PartialEq, Eq)]
pub struct Collision {
    pub dest: String,
    pub overshadowed_sources: Vec<String>,
    pub winning_source: String,
}

/// What applying the sources did, or would do.
#[derive(Debug, PartialEq, Eq)]
pub struct ApplyReport {
    pub dry_run: bool,
    pub written: Vec<String>,
    pub updated: Vec<String>,
    pub removed: Vec<String>,
    /// Files left to the project.
    pub once_kept: Vec<String>,
    pub collisions: Vec<Collision>,
    /// Files that changed since they were written.
    pub drift_warnings: Vec<String>,
}

/// Which sources an update is limited to: none named means all.
pub fn source_filter(sources: Vec<String>) -> (res: Option<Vec<String>>)
    ensures
        res == if sources@.len() == 0 {
            None
        } else {
            Some(sources)
        },
{
    if sources.len() == 0 {
        None
    } else {
        Some(sources)
    }
}

/// Every destination between two texts.
pub open spec fn framed(
    head: Seq<char>,
    dests: Seq<Seq<char>>,
    tail: Seq<char>,
) -> Seq<Seq<char>> {
    dests.map_values(|d: Seq<char>| head + d + tail)
}

fn push_framed(lines: &mut Vec<String>, head: &str, dests: &Vec<String>, tail: &str)
    ensures
        final(lines).deep_view() == old(lines).deep_view() + framed(
            head@,
            dests.deep_view(),
            tail@,
        ),
{
    let ghost before = lines.deep_view();
    let ghost want = framed(head@, dests.deep_view(), tail@);
    let mut i: usize = 0;
    assert(lines.deep_view() =~= before + want.take(0));
    while i < dests.len()
        invariant
            i <= dests@.len(),
            want == framed(head@, dests.deep_view(), tail@),
            lines.deep_view() == before + want.take(i as int),
        decreases dests@.len() - i,
    {
        let ghost sofar = lines.deep_view();
        assert(dests.deep_view()[i as int] == dests@[i as int]@);
        let line = concat3(head, dests[i].as_str(), tail);
        lines.push(line);
        assert(lines.deep_view() =~= sofar.push(want[i as int]));
        assert(sofar.push(want[i as int]) =~= before + want.take(i + 1));
        i += 1;
    }
    assert(want.take(i as int) =~= want);
}

/// The line of a collision.
pub open spec fn collision_line(verb: Seq<char>, c: Collision) -> Seq<char> {
    "agents "@ + verb + ": warn    "@ + c.dest@ + " declared by ["@ + text::joined(
        c.overshadowed_sources.deep_view(),
        ", "@,
    ) + " -> "@ + c.winning_source@ + "], later wins"@
}

/// The lines of collisions.
pub open spec fn collision_lines(verb: Seq<char>, cs: Seq<Collision>) -> Seq<Seq<char>> {
    cs.map_values(|c: Collision| collision_line(verb, c))
}

fn push_collisions(lines: &mut Vec<String>, verb: &str, cs: &Vec<Collision>)
    ensures
        final(lines).deep_view() == old(lines).deep_view() + collision_lines(verb@, cs@),
{
    let ghost before = lines.deep_view();
    let ghost want = collision_lines(verb@, cs@);
    let mut i: usize = 0;
    assert(lines.deep_view() =~= before + want.take(0));
    while i < cs.len()
        invariant
            i <= cs@.len(),
            want == collision_lines(verb@, cs@),
            lines.deep_view() == before + want.take(i as int),
        decreases cs@.len() - i,
    {
        let ghost sofar = lines.deep_view();
        let c = &cs[i];
        let others = text::join(&c.overshadowed_sources, ", ");
        let head = concat3("agents ", verb, ": warn    ");
        let named = concat3(head.as_str(), c.dest.as_str(), " declared by [");
        let listed = concat3(named.as_str(), others.as_str(), " -> ");
        let line = concat3(listed.as_str(), c.winning_source.as_str(), "], later wins");
        lines.push(line);
        assert(lines.deep_view() =~= sofar.push(want[i as int]));
        assert(sofar.push(want[i as int]) =~= before + want.take(i + 1));
        i += 1;
    }
    assert(want.take(i as int) =~= want);
}

/// The lines of a report, but for the one that says that there is nothing.
pub open spec fn report_body(verb: Seq<char>, r: ApplyReport) -> Seq<Seq<char>> {
    let head = "agents "@ + verb + ": "@ + if r.dry_run {
        "would "@
    } else {
        ""@
    };
    framed(head + "wrote   "@, r.written.deep_view(), ""@) + framed(
        head + "updated "@,
        r.updated.deep_view(),
        ""@,
    ) + framed(head + "removed "@, r.removed.deep_view(), ""@) + framed(
        "agents "@ + verb + ": kept    "@,
        r.once_kept.deep_view(),
        " (mode = once)"@,
    ) + collision_lines(verb, r.collisions@) + framed(
        "agents "@ + verb + ": warn    "@,
        r.drift_warnings.deep_view(),
        " drifted; left alone (use --force-overwrite-drift to overwrite)"@,
    )
}

/// The lines of a report.
pub open spec fn report_text(verb: Seq<char>, r: ApplyReport) -> Seq<Seq<char>> {
    let body = report_body(verb, r);
    if body.len() == 0 {
        seq!["agents "@ + verb + ": nothing to do"@]
    } else {
        body
    }
}

/// What `install` and `update` print.
pub fn report_lines(verb: &str, r: &ApplyReport) -> (res: Vec<String>)
    ensures
        res.deep_view() == report_text(verb@, *r),
{
    let start = concat3("agents ", verb, ": ");
    let head = concat(
        start.as_str(),
        if r.dry_run {
            "would "
        } else {
            ""
        },
    );
    let wrote = concat(head.as_str(), "wrote   ");
    let updated = concat(head.as_str(), "updated ");
    let removed = concat(head.as_str(), "removed ");
    let kept = concat3("agents ", verb, ": kept    ");
    let warn = concat3("agents ", verb, ": warn    ");
    let mut lines: Vec<String> = Vec::new();
    assert(lines.deep_view() =~= Seq::<Seq<char>>::empty());
    push_framed(&mut lines, wrote.as_str(), &r.written, "");
    assert(lines.deep_view() =~= framed(wrote@, r.written.deep_view(), ""@));
    push_framed(&mut lines, updated.as_str(), &r.updated, "");
    push_framed(&mut lines, removed.as_str(), &r.removed, "");
    push_framed(&mut lines, kept.as_str(), &r.once_kept, " (mode = once)");
    push_collisions(&mut lines, verb, &r.collisions);
    push_framed(
        &mut lines,
        warn.as_str(),
        &r.drift_warnings,
        " drifted; left alone (use --force-overwrite-drift to overwrite)",
    );
    assert(lines.deep_view() == report_body(verb@, *r));
    assert(lines@.len() == lines.deep_view().len());
    if lines.len() == 0 {
        lines.push(concat3("agents ", verb, ": nothing to do"));
        assert(lines.deep_view() =~= seq!["agents "@ + verb@ + ": nothing to do"@]);
    }
    lines
}

/// What `diff` prints: nothing to do, or what would be done.
pub open spec fn diff_text(r: ApplyReport) -> Seq<Seq<char>> {
    let body = framed("would write   "@, r.written.deep_view(), ""@) + framed(
        "would update  "@,
        r.updated.deep_view(),
        ""@,
    ) + framed("would remove  "@, r.removed.deep_view(), ""@) + framed(
        "would skip    "@,
        r.drift_warnings.deep_view(),
        " (drifted; use --force-overwrite-drift to overwrite)"@,
    );
    if body.len() == 0 {
        seq!["agents: nothing to do"@]
    } else {
        body
    }
}

/// What `diff` prints.
pub fn diff_lines(r: &ApplyReport) -> (res: Vec<String>)
    ensures
        res.deep_view() == diff_text(*r),
{
    let mut lines: Vec<String> = Vec::new();
    assert(lines.deep_view() =~= Seq::<Seq<char>>::empty());
    push_framed(&mut lines, "would write   ", &r.written, "");
    assert(lines.deep_view() =~= framed("would write   "@, r.written.deep_view(), ""@));
    push_framed(&mut lines, "would update  ", &r.updated, "");
    push_framed(&mut lines, "would remove  ", &r.removed, "");
    push_framed(
        &mut lines,
        "would skip    ",
        &r.drift_warnings,
        " (drifted; use --force-overwrite-drift to overwrite)",
    );
    assert(lines@.len() == lines.deep_view().len());
    if lines.len() == 0 {
        lines.push("agents: nothing to do".to_owned());
        assert(lines.deep_view() =~= seq!["agents: nothing to do"@]);
    }
    lines
}

/// The line of a collision while installing.
pub open spec fn shadow_line(c: Collision) -> Seq<char> {
    "  warn    "@ + c.dest@ + " declared by ["@ + text::joined(
        c.overshadowed_sources.deep_view(),
        ", "@,
    ) + "], using `"@ + c.winning_source@ + "`"@
}

/// The lines of collisions while installing.
pub open spec fn shadow_lines(cs: Seq<Collision>) -> Seq<Seq<char>> {
    cs.map_values(|c: Collision| shadow_line(c))
}

fn push_shadows(lines: &mut Vec<String>, cs: &Vec<Collision>)
    ensures
        final(lines).deep_view() == old(lines).deep_view() + shadow_lines(cs@),
{
    let ghost before = lines.deep_view();
    let ghost want = shadow_lines(cs@);
    let mut i: usize = 0;
    assert(lines.deep_view() =~= before + want.take(0));
    while i < cs.len()
        invariant
            i <= cs@.len(),
            want == shadow_lines(cs@),
            lines.deep_view() == before + want.take(i as int),
        decreases cs@.len() - i,
    {
        let ghost sofar = lines.deep_view();
        let c = &cs[i];
        let others = text::join(&c.overshadowed_sources, ", ");
        let named = concat3("  warn    ", c.dest.as_str(), " declared by [");
        let listed = concat3(named.as_str(), others.as_str(), "], using `");
        let line = concat3(listed.as_str(), c.winning_source.as_str(), "`");
        lines.push(line);
        assert(lines.deep_view() =~= sofar.push(want[i as int]));
        assert(sofar.push(want[i as int]) =~= before + want.take(i + 1));
        i += 1;
    }
    assert(want.take(i as int) =~= want);
}

/// What the step of `install` that applies the sources prints.
pub open spec fn step_text(r: ApplyReport) -> Seq<Seq<char>> {
    framed("  wrote   "@, r.written.deep_view(), ""@) + framed(
        "  updated "@,
        r.updated.deep_view(),
        ""@,
    ) + framed("  removed "@, r.removed.deep_view(), ""@) + framed(
        "  kept    "@,
        r.once_kept.deep_view(),
        " (mode = once)"@,
    ) + shadow_lines(r.collisions@) + framed(
        "  warn    "@,
        r.drift_warnings.deep_view(),
        " drifted; left alone"@,
    ) + if r.written@.len() == 0 && r.updated@.len() == 0 && r.removed@.len() == 0 {
        seq!["  agent files unchanged"@]
    } else {
        seq![]
    }
}

/// What the step of `install` that applies the sources prints.
pub fn step_lines(r: &ApplyReport) -> (res: Vec<String>)
    ensures
        res.deep_view() == step_text(*r),
{
    let mut lines: Vec<String> = Vec::new();
    assert(lines.deep_view() =~= Seq::<Seq<char>>::empty());
    push_framed(&mut lines, "  wrote   ", &r.written, "");
    assert(lines.deep_view() =~= framed("  wrote   "@, r.written.deep_view(), ""@));
    push_framed(&mut lines, "  updated ", &r.updated, "");
    push_framed(&mut lines, "  removed ", &r.removed, "");
    push_framed(&mut lines, "  kept    ", &r.once_kept, " (mode = once)");
    push_shadows(&mut lines, &r.collisions);
    push_framed(&mut lines, "  warn    ", &r.drift_warnings, " drifted; left alone");
    let ghost sofar = lines.deep_view();
    if r.written.len() == 0 && r.updated.len() == 0 && r.removed.len() == 0 {
        lines.push("  agent files unchanged".to_owned());
        assert(lines.deep_view() =~= sofar + seq!["  agent files unchanged"@]);
    } else {
        assert(lines.deep_view() =~= sofar + Seq::<Seq<char>>::empty());
    }
    lines
}

// ---------------------------------------------------------------------------
// Status
// ---------------------------------------------------------------------------
/// The first `n` bytes of `s`, where they are whole characters.
pub open spec fn byte_prefix(s: Seq<char>, n: nat, k: int) -> bool {
    0 <= k <= s.len() && text::utf8_len(s.take(k)) == n
}

/// Whether a hash can be shortened: it is short, or its first twelve bytes are
/// whole characters.
pub open spec fn shortens(sha: Seq<char>) -> bool {
    text::utf8_len(sha) <= 12 || exists|k: int| byte_prefix(sha, 12, k)
}

/// The first twelve bytes of a hash.
pub open spec fn short_form(sha: Seq<char>) -> Seq<char> {
    if text::utf8_len(sha) <= 12 {
        sha
    } else {
        sha.take(choose|k: int| byte_prefix(sha, 12, k))
    }
}

proof fn lemma_longer_prefix(s: Seq<char>, j: int, k: int)
    requires
        0 <= j < k <= s.len(),
    ensures
        text::utf8_len(s.take(j)) < text::utf8_len(s.take(k)),
    decreases k,
{
    let front = s.take(k - 1);
    assert(s.take(k) =~= front + seq![s[k - 1]]);
    text::lemma_utf8_len_concat(front, seq![s[k - 1]]);
    text::lemma_utf8_len_char(s[k - 1]);
    if j < k - 1 {
        lemma_longer_prefix(s, j, k - 1);
    }
}

/// The first twelve bytes of a hash.
pub fn short_sha(sha: &str) -> (res: String)
    requires
        shortens(sha@),
    ensures
        res@ == short_form(sha@),
{
    if text::byte_len(sha) <= 12 {
        return sha.to_owned();
    }
    let chars = text::to_chars(sha);
    let mut k: usize = 0;
    let ghost cut = choose|k: int| byte_prefix(sha@, 12, k);
    while k < chars.len()
        invariant
            k <= chars@.len(),
            chars@ == sha@,
            byte_prefix(sha@, 12, cut),
            cut >= k,
            cut == (choose|k: int| byte_prefix(sha@, 12, k)),
            text::utf8_len(sha@) > 12,
        decreases chars@.len() - k,
    {
        let front = text::substring(&chars, 0, k);
        assert(front@ =~= sha@.take(k as int));
        if text::byte_len(front.as_str()) == 12 {
            proof {
                if cut > k {
                    lemma_longer_prefix(sha@, k as int, cut);
                }
            }
            return front;
        }
        k += 1;
    }
    assert(sha@.take(cut) =~= sha@);
    sha.to_owned()
}

/// The first record of that name.
pub open spec fn record_of(records: Seq<SourceRecord>, name: Seq<char>, n: nat) -> Option<
    SourceRecord,
>
    decreases n,
{
    if n == 0 {
        None
    } else {
        match record_of(records, name, (n - 1) as nat) {
            Some(r) => Some(r),
            None => if records[n - 1].name@ == name {
                Some(records[n - 1])
            } else {
                None
            },
        }
    }
}

fn find_record<'a>(records: &'a Vec<SourceRecord>, name: &str) -> (res: Option<&'a SourceRecord>)
    ensures
        res is Some == record_of(records@, name@, records@.len()) is Some,
        res is Some ==> Some(*res->0) == record_of(records@, name@, records@.len()),
{
    let mut found: Option<usize> = None;
    let mut i: usize = 0;
    while i < records.len()
        invariant
            i <= records@.len(),
            found matches Some(k) ==> k < records@.len() && record_of(records@, name@, i as nat)
                == Some(records@[k as int]),
            found is None ==> record_of(records@, name@, i as nat) is None,
        decreases records@.len() - i,
    {
        if found.is_none() && *records[i].name.as_str() == *name {
            found = Some(i);
        }
        i += 1;
    }
    match found {
        Some(k) => Some(&records[k]),
        None => None,
    }
}

/// The row of a declared source: its name, its revision, and the hashes that it
/// was applied at.
pub open spec fn source_row(declared: SourceSpec, records: Seq<SourceRecord>) -> Seq<Seq<char>> {
    match record_of(records, declared.name@, records.len()) {
        Some(r) => seq![
            declared.name@,
            declared.rev@,
            short_form(r.resolved_sha@),
            short_form(r.manifest_sha256@),
        ],
        None => seq![declared.name@, declared.rev@, "(not applied)"@, ""@],
    }
}

/// The rows of declared sources, in order.
pub open spec fn source_table(
    declared: Seq<SourceSpec>,
    records: Seq<SourceRecord>,
) -> Seq<Seq<Seq<char>>> {
    declared.map_values(|d: SourceSpec| source_row(d, records))
}

/// The rows of the source table.
pub fn source_rows(declared: &Vec<SourceSpec>, state: &AgentsState) -> (res: Vec<Vec<String>>)
    requires
        forall|i: int|
            0 <= i < state.sources@.len() ==> shortens((#[trigger] state.sources@[i]).resolved_sha@)
                && shortens(state.sources@[i].manifest_sha256@),
    ensures
        res.deep_view() == source_table(declared@, state.sources@),
{
    let ghost want = source_table(declared@, state.sources@);
    let mut rows: Vec<Vec<String>> = Vec::new();
    let mut i: usize = 0;
    assert(rows.deep_view() =~= want.take(0));
    while i < declared.len()
        invariant
            i <= declared@.len(),
            want == source_table(declared@, state.sources@),
            forall|i: int|
                0 <= i < state.sources@.len() ==> shortens(
                    (#[trigger] state.sources@[i]).resolved_sha@,
                ) && shortens(state.sources@[i].manifest_sha256@),
            rows.deep_view() == want.take(i as int),
        decreases declared@.len() - i,
    {
        let ghost before = rows.deep_view();
        let d = &declared[i];
        let mut row: Vec<String> = Vec::new();
        row.push(d.name.clone());
        row.push(d.rev.clone());
        match find_record(&state.sources, d.name.as_str()) {
            Some(r) => {
                proof {
                    lemma_record_is_listed(state.sources@, d.name@, state.sources@.len());
                }
                row.push(short_sha(r.resolved_sha.as_str()));
                row.push(short_sha(r.manifest_sha256.as_str()));
            },
            None => {
                row.push("(not applied)".to_owned());
                row.push("".to_owned());
            },
        }
        assert(row.deep_view() =~= want[i as int]);
        rows.push(row);
        assert(rows.deep_view() =~= before.push(row.deep_view()));
        assert(before.push(row.deep_view()) =~= want.take(i + 1));
        i += 1;
    }
    assert(want.take(i as int) =~= want);
    rows
}

proof fn lemma_record_is_listed(records: Seq<SourceRecord>, name: Seq<char>, n: nat)
    requires
        n <= records.len(),
        record_of(records, name, n) is Some,
    ensures
        exists|i: int| 0 <= i < n && #[trigger] records[i] == record_of(records, name, n)->0,
    decreases n,
{
    if record_of(records, name, (n - 1) as nat) is Some {
        lemma_record_is_listed(records, name, (n - 1) as nat);
    } else {
        assert(records[n - 1] == record_of(records, name, n)->0);
    }
}

/// Whether a destination is among the drifted ones.
pub open spec fn has_drifted(drifted: Seq<Seq<char>>, dest: Seq<char>) -> bool {
    exists|i: int|
        0 <= i < drifted.len() && paths::components_of(#[trigger] drifted[i])
            == paths::components_of(dest)
}

/// How a written file stands.
pub open spec fn standing(exists: bool, drifted: bool) -> Seq<char> {
    if !exists {
        "missing"@
    } else if drifted {
        "drifted"@
    } else {
        "ok"@
    }
}

/// The row of a written file: where it is, the source that it came from, and how
/// it stands.
pub open spec fn file_row(file: AppliedFile, exists: bool, drifted: bool) -> Seq<Seq<char>> {
    seq![file.dest@, file.source_name@, standing(exists, drifted)]
}

/// The rows of written files, in order.
pub open spec fn file_table(
    files: Seq<AppliedFile>,
    present: Seq<bool>,
    drifted: Seq<Seq<char>>,
) -> Seq<Seq<Seq<char>>> {
    Seq::new(
        files.len(),
        |i: int| file_row(files[i], present[i], has_drifted(drifted, files[i].dest@)),
    )
}

/// Whether the file at place `i` is missing or has drifted.
pub open spec fn amiss_at(
    files: Seq<AppliedFile>,
    present: Seq<bool>,
    drifted: Seq<Seq<char>>,
    i: int,
) -> bool {
    !present[i] || has_drifted(drifted, files[i].dest@)
}

/// Whether one of the first `n` files is missing or has drifted.
pub open spec fn amiss(
    files: Seq<AppliedFile>,
    present: Seq<bool>,
    drifted: Seq<Seq<char>>,
    n: int,
) -> bool {
    exists|i: int| 0 <= i < n && #[trigger] amiss_at(files, present, drifted, i)
}

/// The rows of the file table and the exit code: `strict` fails on any file that
/// is missing or has drifted.
#[derive(Debug, PartialEq, Eq)]
pub struct FileStatus {
    pub rows: Vec<Vec<String>>,
    pub exit_code: i32,
}

fn drifted_contains(drifted: &Vec<String>, dest: &str) -> (res: bool)
    ensures
        res == has_drifted(drifted.deep_view(), dest@),
{
    let ghost all = drifted.deep_view();
    let mut i: usize = 0;
    while i < drifted.len()
        invariant
            i <= drifted@.len(),
            all == drifted.deep_view(),
            forall|k: int|
                0 <= k < i ==> paths::components_of(#[trigger] all[k]) != paths::components_of(
                    dest@,
                ),
        decreases drifted@.len() - i,
    {
        assert(all[i as int] == drifted@[i as int]@);
        if paths::same_path(drifted[i].as_str(), dest) {
            return true;
        }
        i += 1;
    }
    false
}

/// How the written files stand, given which are there and which have drifted.
pub fn file_status(
    files: &Vec<AppliedFile>,
    present: &Vec<bool>,
    drifted: &Vec<String>,
    strict: bool,
) -> (res: FileStatus)
    requires
        present@.len() == files@.len(),
    ensures
        res.rows.deep_view() == file_table(files@, present@, drifted.deep_view()),
        res.exit_code == if strict && amiss(
            files@,
            present@,
            drifted.deep_view(),
            files@.len() as int,
        ) {
            1i32
        } else {
            0i32
        },
{
    let ghost gone = drifted.deep_view();
    let ghost want = file_table(files@, present@, gone);
    let mut rows: Vec<Vec<String>> = Vec::new();
    let mut bad = false;
    let mut i: usize = 0;
    assert(rows.deep_view() =~= want.take(0));
    while i < files.len()
        invariant
            i <= files@.len() == present@.len(),
            gone == drifted.deep_view(),
            want == file_table(files@, present@, gone),
            rows.deep_view() == want.take(i as int),
            bad == amiss(files@, present@, gone, i as int),
        decreases files@.len() - i,
    {
        let ghost before = rows.deep_view();
        let ghost was = bad;
        let f = &files[i];
        let drift = drifted_contains(drifted, f.dest.as_str());
        let word = if !present[i] {
            bad = true;
            "missing"
        } else if drift {
            bad = true;
            "drifted"
        } else {
            "ok"
        };
        assert((bad && !was) ==> amiss_at(files@, present@, gone, i as int));
        assert(!bad ==> !amiss_at(files@, present@, gone, i as int));
        let mut row: Vec<String> = Vec::new();
        row.push(f.dest.clone());
        row.push(f.source_name.clone());
        row.push(word.to_owned());
        assert(row.deep_view() =~= want[i as int]);
        rows.push(row);
        assert(rows.deep_view() =~= before.push(row.deep_view()));
        assert(before.push(row.deep_view()) =~= want.take(i + 1));
        i += 1;
    }
    assert(want.take(i as int) =~= want);
    let exit_code: i32 = if strict && bad {
        1
    } else {
        0
    };
    FileStatus { rows, exit_code }
}

/// A report has a line for every file that was written, updated, removed or kept, for
/// every collision and for every file that drifted, each with its place; and where
/// there is none of these it says so.
pub proof fn law_reports_list_everything(verb: Seq<char>, r: ApplyReport)
    ensures
        ({
            let body = report_body(verb, r);
            let head = "agents "@ + verb + ": "@ + if r.dry_run {
                "would "@
            } else {
                ""@
            };
            let w = r.written@.len() as int;
            let u = w + r.updated@.len();
            let d = u + r.removed@.len();
            let k = d + r.once_kept@.len();
            let c = k + r.collisions@.len();
            &&& body.len() == c + r.drift_warnings@.len()
            &&& forall|i: int|
                0 <= i < w ==> #[trigger] body[i] == head + "wrote   "@ + r.written@[i]@ + ""@
            &&& forall|i: int|
                w <= i < u ==> #[trigger] body[i] == head + "updated "@ + r.updated@[i - w]@ + ""@
            &&& forall|i: int|
                u <= i < d ==> #[trigger] body[i] == head + "removed "@ + r.removed@[i - u]@ + ""@
            &&& forall|i: int|
                d <= i < k ==> #[trigger] body[i] == "agents "@ + verb + ": kept    "@
                    + r.once_kept@[i - d]@ + " (mode = once)"@
            &&& forall|i: int|
                k <= i < c ==> #[trigger] body[i] == "agents "@ + verb + ": warn    "@
                    + r.collisions@[i - k].dest@ + " declared by ["@ + text::joined(
                    r.collisions@[i - k].overshadowed_sources.deep_view(),
                    ", "@,
                ) + " -> "@ + r.collisions@[i - k].winning_source@ + "], later wins"@
            &&& forall|i: int|
                c <= i < body.len() ==> #[trigger] body[i] == "agents "@ + verb + ": warn    "@
                    + r.drift_warnings@[i - c]@
                    + " drifted; left alone (use --force-overwrite-drift to overwrite)"@
            &&& body.len() > 0 ==> report_text(verb, r) == body
            &&& body.len() == 0 ==> report_text(verb, r) == seq![
                "agents "@ + verb + ": nothing to do"@,
            ]
        }),
{
}

/// What `diff` prints has a line for every file that would be written, updated,
/// removed or skipped.
pub proof fn law_diffs_list_everything(r: ApplyReport)
    ensures
        ({
            let w = r.written@.len() as int;
            let u = w + r.updated@.len();
            let d = u + r.removed@.len();
            let n = d + r.drift_warnings@.len();
            let lines = diff_text(r);
            &&& n > 0 ==> lines.len() == n
            &&& n == 0 ==> lines == seq!["agents: nothing to do"@]
            &&& forall|i: int|
                0 <= i < w ==> #[trigger] lines[i] == "would write   "@ + r.written@[i]@ + ""@
            &&& forall|i: int|
                w <= i < u ==> #[trigger] lines[i] == "would update  "@ + r.updated@[i - w]@ + ""@
            &&& forall|i: int|
                u <= i < d ==> #[trigger] lines[i] == "would remove  "@ + r.removed@[i - u]@ + ""@
            &&& forall|i: int|
                d <= i < n ==> #[trigger] lines[i] == "would skip    "@
                    + r.drift_warnings@[i - d]@
                    + " (drifted; use --force-overwrite-drift to overwrite)"@
        }),
{
}

/// The step of `install` has a line for every file and every collision, and says
/// where nothing was changed.
pub proof fn law_steps_list_everything(r: ApplyReport)
    ensures
        ({
            let w = r.written@.len() as int;
            let u = w + r.updated@.len();
            let d = u + r.removed@.len();
            let k = d + r.once_kept@.len();
            let c = k + r.collisions@.len();
            let n = c + r.drift_warnings@.len();
            let lines = step_text(r);
            &&& lines.len() == n + if d == 0 {
                1int
            } else {
                0
            }
            &&& forall|i: int|
                0 <= i < w ==> #[trigger] lines[i] == "  wrote   "@ + r.written@[i]@ + ""@
            &&& forall|i: int|
                w <= i < u ==> #[trigger] lines[i] == "  updated "@ + r.updated@[i - w]@ + ""@
            &&& forall|i: int|
                u <= i < d ==> #[trigger] lines[i] == "  removed "@ + r.removed@[i - u]@ + ""@
            &&& forall|i: int|
                d <= i < k ==> #[trigger] lines[i] == "  kept    "@ + r.once_kept@[i - d]@
                    + " (mode = once)"@
            &&& forall|i: int|
                k <= i < c ==> #[trigger] lines[i] == "  warn    "@ + r.collisions@[i - k].dest@
                    + " declared by ["@ + text::joined(
                    r.collisions@[i - k].overshadowed_sources.deep_view(),
                    ", "@,
                ) + "], using `"@ + r.collisions@[i - k].winning_source@ + "`"@
            &&& forall|i: int|
                c <= i < n ==> #[trigger] lines[i] == "  warn    "@ + r.drift_warnings@[i - c]@
                    + " drifted; left alone"@
            &&& d == 0 ==> lines.last() == "  agent files unchanged"@
        }),
{
}

/// A declared source is shown with the first record of its name, or as not applied
/// where there is none.
pub proof fn law_sources_are_shown_as_recorded(
    declared: Seq<SourceSpec>,
    records: Seq<SourceRecord>,
    i: int,
    r: int,
)
    requires
        0 <= i < declared.len(),
        0 <= r <= records.len(),
        forall|k: int| 0 <= k < r ==> (#[trigger] records[k]).name@ != declared[i].name@,
        r < records.len() ==> records[r].name@ == declared[i].name@,
    ensures
        source_table(declared, records).len() == declared.len(),
        ({
            let row = source_table(declared, records)[i];
            &&& row.len() == 4
            &&& row[0] == declared[i].name@
            &&& row[1] == declared[i].rev@
            &&& r < records.len() ==> row[2] == short_form(records[r].resolved_sha@) && row[3]
                == short_form(records[r].manifest_sha256@)
            &&& r == records.len() ==> row[2] == "(not applied)"@ && row[3] == ""@
        }),
{
    lemma_record_of(records, declared[i].name@, r, records.len());
}

proof fn lemma_record_of(records: Seq<SourceRecord>, name: Seq<char>, r: int, n: nat)
    requires
        n <= records.len(),
        0 <= r <= records.len(),
        forall|k: int| 0 <= k < r ==> (#[trigger] records[k]).name@ != name,
        r < records.len() ==> records[r].name@ == name,
    ensures
        r < n ==> record_of(records, name, n) == Some(records[r]),
        r >= n ==> record_of(records, name, n) is None,
    decreases n,
{
    if n > 0 {
        lemma_record_of(records, name, r, (n - 1) as nat);
    }
}

/// A hash of more than twelve characters that take a byte each is cut to the first
/// twelve; a shorter one stays.
pub proof fn law_hashes_are_cut_to_twelve(sha: Seq<char>)
    requires
        forall|i: int| 0 <= i < sha.len() ==> ((#[trigger] sha[i]) as u32) < 0x80,
    ensures
        sha.len() <= 12 ==> short_form(sha) == sha,
        sha.len() > 12 ==> short_form(sha) == sha.take(12),
{
    lemma_ascii_len(sha);
    if sha.len() > 12 {
        assert forall|k: int| 0 <= k <= sha.len() implies text::utf8_len(sha.take(k)) == k by {
            lemma_ascii_len(sha.take(k));
        }
        assert(byte_prefix(sha, 12, 12));
        let k = choose|k: int| byte_prefix(sha, 12, k);
        assert(k == 12);
    }
}

proof fn lemma_ascii_len(s: Seq<char>)
    requires
        forall|i: int| 0 <= i < s.len() ==> ((#[trigger] s[i]) as u32) < 0x80,
    ensures
        text::utf8_len(s) == s.len(),
    decreases s.len(),
{
    if s.len() > 0 {
        let front = s.drop_last();
        assert forall|i: int| 0 <= i < front.len() implies ((#[trigger] front[i]) as u32) < 0x80 by {
            assert(front[i] == s[i]);
        }
        lemma_ascii_len(front);
        assert(s =~= front + seq![s.last()]);
        text::lemma_utf8_len_concat(front, seq![s.last()]);
        text::lemma_utf8_len_ascii(s.last());
    } else {
        assert(s =~= Seq::<char>::empty());
        text::lemma_utf8_len_concat(s, s);
        assert(s + s =~= s);
    }
}

/// A file is shown as missing where it is not there, else as drifted where a drifted
/// file is at its path, else as in order; and one that is not in order is amiss.
pub proof fn law_files_are_shown_as_they_stand(
    files: Seq<AppliedFile>,
    present: Seq<bool>,
    drifted: Seq<Seq<char>>,
    i: int,
)
    requires
        present.len() == files.len(),
        0 <= i < files.len(),
    ensures
        file_table(files, present, drifted).len() == files.len(),
        ({
            let row = file_table(files, present, drifted)[i];
            let off = exists|k: int|
                0 <= k < drifted.len() && paths::components_of(#[trigger] drifted[k])
                    == paths::components_of(files[i].dest@);
            &&& row.len() == 3
            &&& row[0] == files[i].dest@
            &&& row[1] == files[i].source_name@
            &&& !present[i] ==> row[2] == "missing"@
            &&& present[i] && off ==> row[2] == "drifted"@
            &&& present[i] && !off ==> row[2] == "ok"@
            &&& !present[i] || off ==> amiss(files, present, drifted, files.len() as int)
        }),
        amiss(files, present, drifted, files.len() as int) ==> exists|k: int|
            0 <= k < files.len() && (!(#[trigger] present[k]) || has_drifted(
                drifted,
                files[k].dest@,
            )),
{
    if !present[i] || has_drifted(drifted, files[i].dest@) {
        assert(amiss_at(files, present, drifted, i));
    }
    if amiss(files, present, drifted, files.len() as int) {
        let k = choose|k: int|
            0 <= k < files.len() && #[trigger] amiss_at(files, present, drifted, k);
        assert(!present[k] || has_drifted(drifted, files[k].dest@));
    }
}

} // verus!
