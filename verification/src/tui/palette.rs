//! The command palette: a fuzzy launcher over recipes and scripts.
use crate::shell;
use crate::shell::split_words;
use crate::text;
use crate::tui::app::{Item, ItemKind};
use crate::tui::app;
use crate::tui::matcher;
use crate::tui::matcher::{score_with_words, words_of_query};
use crate::lists;
use vstd::prelude::*;

verus! {

/// How many matches the palette keeps.
pub const MAX_MATCHES: usize = 50;

/// One match: the place of an item in the item list, and its score.
#[derive(Debug, Clone, Copy, PartialEq, Eq, Structural)]
pub struct Match {
    pub item_index: usize,
    pub score: u32,
}

/// An item that the palette offers: its place and its name.
#[derive(Debug, PartialEq, Eq)]
pub struct Candidate {
    pub item_index: usize,
    pub name: String,
}

/// Whether the palette offers the item: recipes and scripts.
pub open spec fn offered(item: app::ItemModel) -> bool {
    item.kind == ItemKind::Recipe || item.kind == ItemKind::Script
}

/// The places and names of the offered ones among the first `n` items.
pub open spec fn candidates_of(items: Seq<app::ItemModel>, n: nat) -> Seq<(int, Seq<char>)>
    decreases n,
{
    if n == 0 {
        seq![]
    } else {
        let rest = candidates_of(items, (n - 1) as nat);
        if offered(items[n - 1]) {
            rest.push((n - 1, items[n - 1].name))
        } else {
            rest
        }
    }
}

/// Place and name of each candidate.
pub open spec fn candidate_models(candidates: Seq<Candidate>) -> Seq<(int, Seq<char>)> {
    candidates.map_values(|c: Candidate| (c.item_index as int, c.name@))
}

/// Candidates carry their own places in ascending order, below the item count.
pub proof fn lemma_candidates(items: Seq<app::ItemModel>, n: nat)
    requires
        n <= items.len(),
    ensures
        forall|i: int|
            0 <= i < candidates_of(items, n).len() ==> ({
                let c = #[trigger] candidates_of(items, n)[i];
                0 <= c.0 < n && offered(items[c.0]) && c.1 == items[c.0].name
            }),
    decreases n,
{
    if n > 0 {
        lemma_candidates(items, (n - 1) as nat);
    }
}

/// The scored ones among the first `n` candidates, in candidate order.
pub open spec fn scored(query: Seq<char>, candidates: Seq<(int, Seq<char>)>, n: nat) -> Seq<Match>
    decreases n,
{
    if n == 0 {
        seq![]
    } else {
        let rest = scored(query, candidates, (n - 1) as nat);
        match matcher::score_of(query, candidates[n - 1].1) {
            Some(score) => rest.push(
                Match { item_index: candidates[n - 1].0 as usize, score },
            ),
            None => rest,
        }
    }
}

/// How many leading matches score at least `score`, given that scores never rise.
pub open spec fn rank_of(ranked: Seq<Match>, score: u32) -> int
    decreases ranked.len(),
{
    if ranked.len() == 0 {
        0
    } else if ranked.last().score >= score {
        ranked.len() as int
    } else {
        rank_of(ranked.drop_last(), score)
    }
}

/// `matches` by falling score; equal scores keep their order.
pub open spec fn ranked(matches: Seq<Match>) -> Seq<Match>
    decreases matches.len(),
{
    if matches.len() == 0 {
        seq![]
    } else {
        let rest = ranked(matches.drop_last());
        let m = matches.last();
        rest.insert(rank_of(rest, m.score), m)
    }
}

/// Whether scores never rise along `matches`.
pub open spec fn falling(matches: Seq<Match>) -> bool {
    forall|i: int, j: int|
        0 <= i <= j < matches.len() ==> (#[trigger] matches[i]).score >= (#[trigger] matches[j]).score
}

proof fn lemma_rank_of(ranked: Seq<Match>, score: u32)
    requires
        falling(ranked),
    ensures
        0 <= rank_of(ranked, score) <= ranked.len(),
        forall|k: int| 0 <= k < rank_of(ranked, score) ==> (#[trigger] ranked[k]).score >= score,
        forall|k: int|
            rank_of(ranked, score) <= k < ranked.len() ==> (#[trigger] ranked[k]).score < score,
    decreases ranked.len(),
{
    if ranked.len() > 0 && ranked.last().score < score {
        let rest = ranked.drop_last();
        lemma_rank_of(rest, score);
        assert forall|k: int| rank_of(ranked, score) <= k < ranked.len() implies (
        #[trigger] ranked[k]).score < score by {
            if k < rest.len() {
                assert(rest[k] == ranked[k]);
            }
        }
        assert forall|k: int| 0 <= k < rank_of(ranked, score) implies (#[trigger] ranked[k]).score
            >= score by {
            assert(rest[k] == ranked[k]);
        }
    }
}

/// Ranking orders by falling score and neither loses nor invents a match.
pub proof fn law_ranked_is_a_sorted_permutation(matches: Seq<Match>)
    ensures
        falling(ranked(matches)),
        ranked(matches).len() == matches.len(),
        ranked(matches).to_multiset() =~= matches.to_multiset(),
    decreases matches.len(),
{
    broadcast use vstd::seq_lib::group_to_multiset_ensures;

    if matches.len() > 0 {
        let front = matches.drop_last();
        law_ranked_is_a_sorted_permutation(front);
        let rest = ranked(front);
        let m = matches.last();
        lemma_rank_of(rest, m.score);
        let at = rank_of(rest, m.score);
        let out = rest.insert(at, m);
        assert forall|i: int, j: int| 0 <= i <= j < out.len() implies (#[trigger] out[i]).score >= (
        #[trigger] out[j]).score by {
            let i0 = if i < at { i } else { i - 1 };
            let j0 = if j < at { j } else { j - 1 };
            if i != at {
                assert(out[i] == rest[i0]);
            }
            if j != at {
                assert(out[j] == rest[j0]);
            }
        }
        assert(matches =~= front.push(m));
    } else {
        assert(ranked(matches) =~= matches);
    }
}

/// As many of `matches` as the palette keeps.
pub open spec fn capped(matches: Seq<Match>) -> Seq<Match> {
    if matches.len() > MAX_MATCHES {
        matches.take(MAX_MATCHES as int)
    } else {
        matches
    }
}

/// The matches for `query`: all candidates in their order for an empty one, else
/// those that match by falling score; never more than the cap.
pub open spec fn matches_for(query: Seq<char>, candidates: Seq<(int, Seq<char>)>) -> Seq<Match> {
    if query.len() == 0 {
        capped(
            candidates.map_values(
                |c: (int, Seq<char>)| Match { item_index: c.0 as usize, score: 0 },
            ),
        )
    } else {
        capped(ranked(scored(query, candidates, candidates.len())))
    }
}

/// Whether every match points below `bound`.
pub open spec fn below_bound(matches: Seq<Match>, bound: int) -> bool {
    forall|i: int| 0 <= i < matches.len() ==> (#[trigger] matches[i]).item_index < bound
}

proof fn lemma_ranked_below(matches: Seq<Match>, bound: int)
    requires
        below_bound(matches, bound),
    ensures
        below_bound(ranked(matches), bound),
    decreases matches.len(),
{
    if matches.len() > 0 {
        let front = matches.drop_last();
        lemma_ranked_below(front, bound);
        law_ranked_is_a_sorted_permutation(front);
        let rest = ranked(front);
        let m = matches.last();
        lemma_rank_of(rest, m.score);
        let at = rank_of(rest, m.score);
        let out = rest.insert(at, m);
        assert forall|i: int| 0 <= i < out.len() implies (#[trigger] out[i]).item_index < bound by {
            let i0 = if i < at { i } else { i - 1 };
            if i != at {
                assert(out[i] == rest[i0]);
            } else {
                assert(out[i] == matches[matches.len() - 1]);
            }
        }
    }
}

proof fn lemma_scored_below(
    query: Seq<char>,
    candidates: Seq<(int, Seq<char>)>,
    n: nat,
    bound: int,
)
    requires
        n <= candidates.len(),
        bound <= usize::MAX + 1,
        forall|i: int| 0 <= i < candidates.len() ==> 0 <= (#[trigger] candidates[i]).0 < bound,
    ensures
        below_bound(scored(query, candidates, n), bound),
    decreases n,
{
    if n > 0 {
        lemma_scored_below(query, candidates, (n - 1) as nat, bound);
        assert(0 <= candidates[n - 1].0 < bound);
    }
}

/// Whether every candidate stands below `bound`.
pub open spec fn candidates_below(candidates: Seq<Candidate>, bound: int) -> bool {
    forall|i: int| 0 <= i < candidates.len() ==> (#[trigger] candidates[i]).item_index < bound
}

/// The candidates taken from `items` point into `items`.
pub proof fn lemma_candidates_below(palette: Palette, items: Seq<app::ItemModel>)
    requires
        candidate_models(palette.candidates@) == candidates_of(items, items.len()),
    ensures
        candidates_below(palette.candidates@, items.len() as int),
{
    lemma_candidates(items, items.len());
    let models = candidate_models(palette.candidates@);
    assert forall|i: int| 0 <= i < palette.candidates@.len() implies (
    #[trigger] palette.candidates@[i]).item_index < items.len() by {
        assert(models[i].0 == palette.candidates@[i].item_index);
    }
}

/// The matches of a palette point where its candidates do.
pub proof fn lemma_matches_below(palette: Palette, bound: int)
    requires
        palette.wf(),
        candidates_below(palette.candidates@, bound),
        bound <= usize::MAX + 1,
    ensures
        below_bound(palette.matches@, bound),
{
    let models = candidate_models(palette.candidates@);
    assert forall|i: int| 0 <= i < models.len() implies 0 <= (#[trigger] models[i]).0 < bound by {
        assert(models[i].0 == palette.candidates@[i].item_index);
    }
    lemma_scored_below(palette.input@, models, models.len(), bound);
    lemma_ranked_below(scored(palette.input@, models, models.len()), bound);
}

/// The words that follow the first one.
pub open spec fn after_first(words: Seq<Seq<char>>) -> Seq<Seq<char>> {
    if words.len() > 0 {
        words.drop_first()
    } else {
        words
    }
}

/// The words that follow the first one.
pub fn drop_command(words: Vec<String>) -> (res: Vec<String>)
    ensures
        res.deep_view() == after_first(words.deep_view()),
{
    let ghost all = words.deep_view();
    let mut out = words;
    if out.len() > 0 {
        let _ = out.remove(0);
    }
    assert(out.deep_view() =~= after_first(all));
    out
}

/// The words that follow the first one of the query.
pub open spec fn args_of(query: Seq<char>) -> Seq<Seq<char>> {
    match shell::shell_words_of(query) {
        Some(words) => after_first(words),
        None => seq![],
    }
}

/// The palette's state.
#[derive(Debug, PartialEq, Eq)]
pub struct Palette {
    pub input: String,
    pub matches: Vec<Match>,
    pub selected: usize,
    /// The offered items, taken when the palette was opened.
    pub candidates: Vec<Candidate>,
}

fn collect_candidates(items: &Vec<Item>) -> (res: Vec<Candidate>)
    ensures
        candidate_models(res@) == candidates_of(items.deep_view(), items@.len()),
{
    let ghost all = items.deep_view();
    let mut out: Vec<Candidate> = Vec::new();
    let mut i: usize = 0;
    assert(candidate_models(out@) =~= candidates_of(all, 0));
    while i < items.len()
        invariant
            i <= items@.len(),
            all == items.deep_view(),
            candidate_models(out@) == candidates_of(all, i as nat),
        decreases items@.len() - i,
    {
        let item = &items[i];
        assert(all[i as int] == item.deep_view());
        let ghost before = candidate_models(out@);
        if item.kind == ItemKind::Recipe || item.kind == ItemKind::Script {
            out.push(Candidate { item_index: i, name: item.name.clone() });
            assert(candidate_models(out@) =~= before.push((i as int, item.name@)));
        }
        i += 1;
    }
    out
}

/// Puts `m` behind every match of `out` that scores at least as much.
fn insert_ranked(out: &mut Vec<Match>, m: Match)
    requires
        falling(old(out)@),
    ensures
        final(out)@ == old(out)@.insert(rank_of(old(out)@, m.score), m),
{
    let ghost start = out@;
    let mut at: usize = out.len();
    assert(start.take(start.len() as int) =~= start);
    while at > 0 && out[at - 1].score < m.score
        invariant
            at <= out@.len(),
            out@ == start,
            rank_of(start.take(at as int), m.score) == rank_of(start, m.score),
        decreases at,
    {
        assert(start.take(at as int).drop_last() =~= start.take(at - 1));
        at -= 1;
    }
    assert(rank_of(start.take(at as int), m.score) == at);
    out.insert(at, m);
}

/// The best of the scored candidates, by falling score; equal scores keep their
/// order.
pub fn rank_matches(scored: &Vec<Match>) -> (res: Vec<Match>)
    ensures
        res@ == capped(ranked(scored@)),
{
    let mut out: Vec<Match> = Vec::new();
    let mut i: usize = 0;
    assert(ranked(scored@.take(0)) =~= Seq::<Match>::empty());
    while i < scored.len()
        invariant
            i <= scored@.len(),
            out@ == ranked(scored@.take(i as int)),
        decreases scored@.len() - i,
    {
        proof {
            law_ranked_is_a_sorted_permutation(scored@.take(i as int));
            assert(scored@.take(i + 1).drop_last() =~= scored@.take(i as int));
        }
        insert_ranked(&mut out, scored[i]);
        i += 1;
    }
    assert(scored@.take(i as int) =~= scored@);
    out.truncate(MAX_MATCHES);
    assert(out@ =~= capped(ranked(scored@)));
    out
}

impl Palette {
    /// The selection points at a match, or there is none.
    pub open spec fn selection_valid(&self) -> bool {
        self.selected < self.matches@.len() || (self.matches@.len() == 0 && self.selected == 0)
    }

    /// The matches are those of the query.
    pub open spec fn wf(&self) -> bool {
        &&& self.matches@ == matches_for(self.input@, candidate_models(self.candidates@))
        &&& self.selection_valid()
    }

    /// A palette over `items` with an empty query.
    pub fn new(items: &Vec<Item>) -> (res: Self)
        ensures
            res.wf(),
            res.input@.len() == 0,
            res.selected == 0,
            candidate_models(res.candidates@) == candidates_of(items.deep_view(), items@.len()),
    {
        let candidates = collect_candidates(items);
        let mut palette = Palette {
            input: String::new(),
            matches: Vec::new(),
            selected: 0,
            candidates,
        };
        palette.recompute();
        palette
    }

    /// The query.
    pub fn input(&self) -> (res: &str)
        ensures
            res@ == self.input@,
    {
        self.input.as_str()
    }

    /// The matches, best first.
    pub fn matches(&self) -> (res: &[Match])
        ensures
            res@ == self.matches@,
    {
        self.matches.as_slice()
    }

    /// The place of the selected match.
    pub fn selected(&self) -> (res: usize)
        ensures
            res == self.selected,
    {
        self.selected
    }

    /// The selected match.
    pub fn selected_match(&self) -> (res: Option<Match>)
        ensures
            res == if self.selected < self.matches@.len() {
                Some(self.matches@[self.selected as int])
            } else {
                None
            },
    {
        if self.selected < self.matches.len() {
            Some(self.matches[self.selected])
        } else {
            None
        }
    }

    /// The arguments that the query gives the launched item.
    pub fn parsed_args(&self) -> (res: Vec<String>)
        ensures
            res.deep_view() == args_of(self.input@),
    {
        match split_words(self.input.as_str()) {
            Ok(words) => drop_command(words),
            Err(_) => {
                let out: Vec<String> = Vec::new();
                assert(out.deep_view() =~= Seq::<Seq<char>>::empty());
                out
            },
        }
    }

    /// Takes the item list anew, keeping the query.
    pub fn refresh_candidates(&mut self, items: &Vec<Item>)
        ensures
            final(self).wf(),
            final(self).input == old(self).input,
            final(self).selected == 0,
            candidate_models(final(self).candidates@) == candidates_of(
                items.deep_view(),
                items@.len(),
            ),
    {
        self.candidates = collect_candidates(items);
        self.recompute();
    }

    /// Appends `c` to the query.
    pub fn push_char(&mut self, c: char)
        requires
            old(self).wf(),
        ensures
            final(self).wf(),
            final(self).input@ == old(self).input@.push(c),
            final(self).candidates == old(self).candidates,
            final(self).selected == 0,
    {
        self.input.push(c);
        self.recompute();
    }

    /// Drops the last character of the query, if there is one.
    pub fn pop_char(&mut self)
        requires
            old(self).wf(),
        ensures
            final(self).wf(),
            final(self).input@ == text::without_last(old(self).input@),
            final(self).candidates == old(self).candidates,
            final(self).selected == 0,
    {
        text::drop_last_char(&mut self.input);
        self.recompute();
    }

    /// Selects the next match, and the first one after the last.
    pub fn select_next(&mut self)
        requires
            old(self).selection_valid(),
        ensures
            final(self).selection_valid(),
            *final(self) == (Palette { selected: final(self).selected, ..*old(self) }),
            old(self).matches@.len() > 0 ==> final(self).selected == (old(self).selected + 1) % (
            old(self).matches@.len() as int),
    {
        if self.matches.len() == 0 {
            return ;
        }
        self.selected = (self.selected + 1) % self.matches.len();
    }

    /// Selects the previous match, and the last one before the first.
    pub fn select_prev(&mut self)
        requires
            old(self).selection_valid(),
        ensures
            final(self).selection_valid(),
            *final(self) == (Palette { selected: final(self).selected, ..*old(self) }),
            old(self).matches@.len() > 0 ==> final(self).selected == if old(self).selected == 0 {
                old(self).matches@.len() - 1
            } else {
                old(self).selected - 1
            },
    {
        if self.matches.len() == 0 {
            return ;
        }
        self.selected = if self.selected == 0 {
            self.matches.len() - 1
        } else {
            self.selected - 1
        };
    }

    fn recompute(&mut self)
        ensures
            final(self).wf(),
            final(self).input == old(self).input,
            final(self).candidates == old(self).candidates,
            final(self).selected == 0,
    {
        let ghost query = self.input@;
        let ghost models = candidate_models(self.candidates@);
        let mut out: Vec<Match> = Vec::new();
        let mut i: usize = 0;
        if self.input.as_str().is_empty() {
            let ghost all = models.map_values(
                |c: (int, Seq<char>)| Match { item_index: c.0 as usize, score: 0 },
            );
            while i < self.candidates.len() && i < MAX_MATCHES
                invariant
                    i <= self.candidates@.len(),
                    i <= MAX_MATCHES,
                    models == candidate_models(self.candidates@),
                    all == models.map_values(
                        |c: (int, Seq<char>)| Match { item_index: c.0 as usize, score: 0 },
                    ),
                    out@ == all.take(i as int),
                decreases self.candidates@.len() - i,
            {
                let ghost before = out@;
                out.push(Match { item_index: self.candidates[i].item_index, score: 0 });
                assert(models[i as int].0 == self.candidates@[i as int].item_index);
                assert(out@ =~= before.push(all[i as int]));
                assert(all.take(i + 1) =~= before.push(all[i as int]));
                i += 1;
            }
            assert(out@ =~= matches_for(query, models)) by {
                if all.len() <= MAX_MATCHES {
                    assert(all.take(i as int) =~= all);
                }
            }
        } else {
            let mut hits: Vec<Match> = Vec::new();
            let words = words_of_query(self.input.as_str());
            while i < self.candidates.len()
                invariant
                    i <= self.candidates@.len(),
                    query == self.input@,
                    match words {
                        Some(w) => query.len() <= matcher::MAX_QUERY && matcher::word_models(w@)
                            == matcher::query_words(query),
                        None => query.len() > matcher::MAX_QUERY,
                    },
                    models == candidate_models(self.candidates@),
                    hits@ == scored(query, models, i as nat),
                decreases self.candidates@.len() - i,
            {
                let c = &self.candidates[i];
                assert(models[i as int] == (c.item_index as int, c.name@));
                let found = match &words {
                    Some(w) => score_with_words(self.input.as_str(), w, c.name.as_str()),
                    None => None,
                };
                if let Some(score) = found {
                    hits.push(Match { item_index: c.item_index, score });
                }
                i += 1;
            }
            out = rank_matches(&hits);
        }
        self.matches = out;
        self.selected = 0;
    }
}

/// Recipes and scripts are offered, all of them, in the order of the rows, under their
/// own names, and no other row is.
pub proof fn law_recipes_and_scripts_are_offered(items: Vec<Item>)
    ensures
        lists::selects(
            candidates_of(items.deep_view(), items@.len()),
            |i: int| (i, items@[i].name@),
            |i: int| items@[i].kind == ItemKind::Recipe || items@[i].kind == ItemKind::Script,
            items@.len(),
        ),
{
    lemma_offered(items, items@.len());
}

proof fn lemma_offered(items: Vec<Item>, n: nat)
    requires
        n <= items@.len(),
    ensures
        lists::selects(
            candidates_of(items.deep_view(), n),
            |i: int| (i, items@[i].name@),
            |i: int| items@[i].kind == ItemKind::Recipe || items@[i].kind == ItemKind::Script,
            n,
        ),
    decreases n,
{
    let value = |i: int| (i, items@[i].name@);
    let keep = |i: int|
        items@[i].kind == ItemKind::Recipe || items@[i].kind == ItemKind::Script;
    if n == 0 {
        lists::lemma_selects_none(value, keep);
    } else {
        let m = (n - 1) as nat;
        lemma_offered(items, m);
        lists::lemma_selects_next(candidates_of(items.deep_view(), m), value, keep, m);
    }
}

/// Whether `m` is how candidate `k` does for the query.
pub open spec fn scores_as(query: Seq<char>, candidates: Seq<Candidate>, k: int, m: Match) -> bool {
    &&& 0 <= k < candidates.len()
    &&& m.item_index == candidates[k].item_index
    &&& matcher::score_of(query, candidates[k].name@) == Some(m.score)
}

/// Whether `m` is how one of the first `n` candidates does for the query.
pub open spec fn scores_in(query: Seq<char>, candidates: Seq<Candidate>, n: nat, m: Match) -> bool {
    exists|k: int| k < n && #[trigger] scores_as(query, candidates, k, m)
}

/// What a palette with a query shows: candidates that match it with their scores, at
/// most fifty. The scores never rise, candidates of one score stand in their order, and
/// one that matches is missing only where fifty others score at least as much.
pub proof fn law_the_best_matches_are_shown(p: Palette)
    requires
        p.wf(),
        p.input@.len() > 0,
        forall|i: int, j: int|
            0 <= i < j < p.candidates@.len() ==> (#[trigger] p.candidates@[i]).item_index < (
            #[trigger] p.candidates@[j]).item_index,
    ensures
        p.matches@.len() <= 50,
        forall|i: int|
            0 <= i < p.matches@.len() ==> scores_in(
                p.input@,
                p.candidates@,
                p.candidates@.len(),
                #[trigger] p.matches@[i],
            ),
        forall|i: int, j: int|
            0 <= i < j < p.matches@.len() ==> (#[trigger] p.matches@[i]).score > (
            #[trigger] p.matches@[j]).score || (p.matches@[i].score == p.matches@[j].score
                && p.matches@[i].item_index < p.matches@[j].item_index),
        forall|k: int, m: Match| #[trigger]
            scores_as(p.input@, p.candidates@, k, m) && !p.matches@.contains(m) ==> p.matches@.len()
                == 50 && forall|i: int|
                0 <= i < p.matches@.len() ==> (#[trigger] p.matches@[i]).score >= m.score,
{
    let c = p.candidates@;
    let models = candidate_models(c);
    let n = models.len();
    let all = scored(p.input@, models, n);
    let order = ranked(all);
    lemma_scored_ascend(p.input@, c, n);
    lemma_ranked_stable(all);
    law_ranked_is_a_sorted_permutation(all);
    lemma_same_matches(order, all);
    assert(p.matches@ =~= order.take(p.matches@.len() as int));
    assert forall|i: int| 0 <= i < p.matches@.len() implies scores_in(
        p.input@,
        c,
        n,
        #[trigger] p.matches@[i],
    ) by {
        assert(order.contains(order[i]));
        let j = all.index_of(order[i]);
        assert(all[j] == p.matches@[i]);
    }
    assert forall|i: int, j: int| 0 <= i < j < p.matches@.len() implies (
    #[trigger] p.matches@[i]).score > (#[trigger] p.matches@[j]).score || (p.matches@[i].score
        == p.matches@[j].score && p.matches@[i].item_index < p.matches@[j].item_index) by {
        assert(order[i] == p.matches@[i] && order[j] == p.matches@[j]);
    }
    assert forall|k: int, m: Match| #[trigger]
        scores_as(p.input@, c, k, m) && !p.matches@.contains(m) implies p.matches@.len() == 50
        && forall|i: int|
        0 <= i < p.matches@.len() ==> (#[trigger] p.matches@[i]).score >= m.score by {
        assert(all.contains(m));
        assert(order.contains(m));
        let at = order.index_of(m);
        assert(order[at] == m);
        if at < p.matches@.len() {
            assert(p.matches@[at] == m);
        }
        assert forall|i: int| 0 <= i < p.matches@.len() implies (#[trigger] p.matches@[i]).score
            >= m.score by {
            assert(order[i] == p.matches@[i]);
        }
    }
}

proof fn lemma_same_matches(a: Seq<Match>, b: Seq<Match>)
    requires
        a.to_multiset() =~= b.to_multiset(),
    ensures
        forall|m: Match| #[trigger] a.contains(m) <==> b.contains(m),
{
    broadcast use vstd::seq_lib::group_to_multiset_ensures;

    assert forall|m: Match| #[trigger] a.contains(m) <==> b.contains(m) by {
        assert(a.to_multiset().count(m) == b.to_multiset().count(m));
    }
}

proof fn lemma_scored_ascend(query: Seq<char>, c: Seq<Candidate>, n: nat)
    requires
        n <= c.len(),
        forall|i: int, j: int|
            0 <= i < j < c.len() ==> (#[trigger] c[i]).item_index < (#[trigger] c[j]).item_index,
    ensures
        ({
            let all = scored(query, candidate_models(c), n);
            &&& forall|i: int|
                0 <= i < all.len() ==> scores_in(query, c, n, #[trigger] all[i])
            &&& forall|k: int, m: Match|
                k < n && #[trigger] scores_as(query, c, k, m) ==> all.contains(m)
            &&& forall|i: int, j: int|
                0 <= i < j < all.len() ==> (#[trigger] all[i]).item_index < (
                #[trigger] all[j]).item_index
        }),
    decreases n,
{
    if n > 0 {
        let m = (n - 1) as nat;
        lemma_scored_ascend(query, c, m);
        let rest = scored(query, candidate_models(c), m);
        let all = scored(query, candidate_models(c), n);
        assert(candidate_models(c)[m as int] == (c[m as int].item_index as int, c[m as int].name@));
        assert forall|i: int| 0 <= i < all.len() implies scores_in(
            query,
            c,
            n,
            #[trigger] all[i],
        ) by {
            if i < rest.len() {
                assert(all[i] == rest[i]);
                let k = choose|k: int| k < m && scores_as(query, c, k, rest[i]);
                assert(k < n && scores_as(query, c, k, all[i]));
            } else {
                assert(scores_as(query, c, m as int, all[i]));
            }
        }
        assert forall|k: int, x: Match| k < n && #[trigger] scores_as(query, c, k, x) implies
            all.contains(x) by {
            if k < m {
                assert(rest.contains(x));
                let i = rest.index_of(x);
                assert(all[i] == x);
            } else {
                assert(all[rest.len() as int] == x);
            }
        }
        assert forall|i: int, j: int| 0 <= i < j < all.len() implies (#[trigger] all[i]).item_index
            < (#[trigger] all[j]).item_index by {
            assert(all[i] == rest[i]);
            if j < rest.len() {
                assert(all[j] == rest[j]);
            } else {
                let k = choose|k: int| k < m && scores_as(query, c, k, rest[i]);
                assert(c[k].item_index < c[m as int].item_index);
            }
        }
    }
}

proof fn lemma_ranked_stable(matches: Seq<Match>)
    requires
        forall|i: int, j: int|
            0 <= i < j < matches.len() ==> (#[trigger] matches[i]).item_index < (
            #[trigger] matches[j]).item_index,
    ensures
        forall|i: int, j: int|
            0 <= i < j < ranked(matches).len() ==> (#[trigger] ranked(matches)[i]).score > (
            #[trigger] ranked(matches)[j]).score || (ranked(matches)[i].score
                == ranked(matches)[j].score && ranked(matches)[i].item_index
                < ranked(matches)[j].item_index),
        forall|i: int|
            0 <= i < ranked(matches).len() ==> (#[trigger] ranked(matches)[i]).item_index
                <= matches.last().item_index,
    decreases matches.len(),
{
    if matches.len() > 0 {
        let front = matches.drop_last();
        lemma_ranked_stable(front);
        law_ranked_is_a_sorted_permutation(front);
        let rest = ranked(front);
        let m = matches.last();
        lemma_rank_of(rest, m.score);
        let at = rank_of(rest, m.score);
        let out = rest.insert(at, m);
        if front.len() > 0 {
            assert(matches[front.len() - 1].item_index < matches[matches.len() - 1].item_index);
        }
        assert forall|i: int| 0 <= i < rest.len() implies (#[trigger] rest[i]).item_index
            < m.item_index by {}
        assert forall|i: int| 0 <= i < out.len() implies (#[trigger] out[i]).item_index
            <= m.item_index by {
            if i < at {
                assert(out[i] == rest[i]);
            } else if i > at {
                assert(out[i] == rest[i - 1]);
            }
        }
        assert forall|i: int, j: int| 0 <= i < j < out.len() implies (#[trigger] out[i]).score > (
        #[trigger] out[j]).score || (out[i].score == out[j].score && out[i].item_index
            < out[j].item_index) by {
            let i0 = if i < at { i } else { i - 1 };
            let j0 = if j < at { j } else { j - 1 };
            if i != at {
                assert(out[i] == rest[i0]);
            }
            if j != at {
                assert(out[j] == rest[j0]);
            }
        }
    }
}

/// What a palette without a query shows: the candidates in their order, the first fifty
/// of them.
pub proof fn law_everything_is_shown_without_a_query(p: Palette)
    requires
        p.wf(),
        p.input@.len() == 0,
    ensures
        p.matches@.len() == if p.candidates@.len() < 50 {
            p.candidates@.len() as int
        } else {
            50
        },
        forall|i: int|
            0 <= i < p.matches@.len() ==> (#[trigger] p.matches@[i]).item_index
                == p.candidates@[i].item_index,
{
}

/// The arguments of a query are its words but the first, and none where it has no words
/// or cannot be split into words.
pub proof fn law_arguments_follow_the_first_word(query: Seq<char>)
    ensures
        ({
            let words = shell::shell_words_of(query);
            let args = args_of(query);
            &&& words is None || words->0.len() == 0 ==> args.len() == 0
            &&& words is Some && words->0.len() > 0 ==> args.len() == words->0.len() - 1 && forall|
                i: int,
            |
                0 <= i < args.len() ==> #[trigger] args[i] == words->0[i + 1]
        }),
{
}

} // verus!
