//! The fuzzy matcher behind the palette, and the queries and names that it takes.
use crate::text;
use nucleo_matcher::pattern::{AtomKind, CaseMatching, Normalization, Pattern};
use nucleo_matcher::{Config, Matcher, Utf32Str};
use vstd::prelude::*;

verus! {

/// How many characters a word of a query may have that is held against a name as
/// long. The matcher adds up the score of a word in sixteen bits: at most thirty-six
/// for its first character and twenty-six for each other.
pub const MAX_WORD: usize = 2_520;

/// How many characters a query may have. The matcher adds up the scores of the words
/// in thirty-two bits: at most thirty-six for each character of a word, and it may
/// count a backslash of the query twice.
pub const MAX_QUERY: usize = 59_652_323;

// ---------------------------------------------------------------------------
// What the matcher sees
// ---------------------------------------------------------------------------
/// The score that `nucleo_matcher` gives a name for a query, under smart case and
/// smart normalization; nothing for a name that does not match.
pub uninterp spec fn fuzzy_score(query: Seq<char>, name: Seq<char>) -> Option<u32>;

/// The words that `nucleo_matcher` reads in a query: whether gaps may stand between
/// the characters of the word, and these characters.
pub uninterp spec fn query_words(query: Seq<char>) -> Seq<(bool, Seq<char>)>;

/// The characters that `nucleo_matcher` sees of a text: the first of each grapheme.
pub uninterp spec fn seen_chars(s: Seq<char>) -> Seq<char>;

/// What `nucleo_matcher` makes of a character by simple case folding.
pub uninterp spec fn folded(c: char) -> char;

/// What `nucleo_matcher` makes of a character by taking its accents off.
pub uninterp spec fn unaccented(c: char) -> char;

/// Kind and characters of each word.
pub open spec fn word_models(words: Seq<(bool, Vec<char>)>) -> Seq<(bool, Seq<char>)> {
    words.map_values(|w: (bool, Vec<char>)| (w.0, w.1@))
}

/// `nucleo_matcher::pattern::Pattern::parse`, with the kind of each atom and
/// `Atom::needle_text`. The words are left to the name `query_words`.
#[verifier::external_body]
fn split_query(query: &str) -> (res: Vec<(bool, Vec<char>)>)
    ensures
        word_models(res@) == query_words(query@),
{
    let pattern = Pattern::parse(query, CaseMatching::Smart, Normalization::Smart);
    let mut words = Vec::new();
    for atom in &pattern.atoms {
        words.push((matches!(atom.kind, AtomKind::Fuzzy), atom.needle_text().chars().collect()));
    }
    words
}

/// `nucleo_matcher::chars::graphemes`. The characters are left to the name
/// `seen_chars`.
#[verifier::external_body]
fn see(s: &str) -> (res: Vec<char>)
    ensures
        res@ == seen_chars(s@),
{
    nucleo_matcher::chars::graphemes(s).collect()
}

/// `nucleo_matcher::chars::to_lower_case`. The character is left to the name
/// `folded`.
#[verifier::external_body]
fn fold(c: char) -> (res: char)
    ensures
        res == folded(c),
{
    nucleo_matcher::chars::to_lower_case(c)
}

/// `nucleo_matcher::chars::normalize`. The character is left to the name
/// `unaccented`.
#[verifier::external_body]
fn unaccent(c: char) -> (res: char)
    ensures
        res == unaccented(c),
{
    nucleo_matcher::chars::normalize(c)
}

// ---------------------------------------------------------------------------
// What the matcher takes
// ---------------------------------------------------------------------------
/// The lower-case letters and marks, but for Cherokee and Old Cyrillic, that have a
/// simple case folding.
pub const FOLDED: &'static str =
    "\u{b5}\u{17f}\u{345}\u{3c2}\u{3d0}\u{3d1}\u{3d5}\u{3d6}\u{3f0}\u{3f1}\u{3f5}\u{1e9b}\u{1fbe}";

/// The lower-case characters that have a simple case folding. In a search that
/// ignores case and keeps accents, the matcher folds them when it looks for the
/// first and the last character of a word, but not when it scores what is between.
pub open spec fn folds_in_part(c: char) -> bool {
    ||| FOLDED@.contains(c)
    ||| '\u{13f8}' <= c <= '\u{13fd}'
    ||| '\u{ab70}' <= c <= '\u{abbf}'
    ||| '\u{1c80}' <= c <= '\u{1c88}'
}

fn is_folded_in_part(c: char) -> (res: bool)
    ensures
        res == folds_in_part(c),
{
    text::has_char(FOLDED, c) || ('\u{13f8}' <= c && c <= '\u{13fd}') || ('\u{ab70}' <= c && c
        <= '\u{abbf}') || ('\u{1c80}' <= c && c <= '\u{1c88}')
}

/// Whether `s` is ASCII throughout.
pub open spec fn plain(s: Seq<char>) -> bool {
    forall|i: int| 0 <= i < s.len() ==> (#[trigger] s[i]) <= '\u{7f}'
}

/// Whether case is ignored for a word: folding leaves it as it is.
pub open spec fn ignores_case(word: Seq<char>) -> bool {
    forall|i: int| 0 <= i < word.len() ==> folded(#[trigger] word[i]) == word[i]
}

/// Whether accents are ignored for a word: it has none.
pub open spec fn ignores_accents(word: Seq<char>) -> bool {
    forall|i: int| 0 <= i < word.len() ==> unaccented(#[trigger] word[i]) == word[i]
}

/// How long a name is to the matcher: in bytes where it sees ASCII alone, else in
/// characters that it sees.
pub open spec fn name_len(name: Seq<char>) -> nat {
    if plain(seen_chars(name)) {
        text::utf8_len(name)
    } else {
        seen_chars(name).len()
    }
}

/// Whether a word and a name are short enough for the matcher's counters. A word that
/// is too long is not held against a name as long, also where the score would fit; a
/// word that is longer than the name never matches it.
pub open spec fn fits(word: Seq<char>, name: Seq<char>) -> bool {
    &&& name_len(name) <= u32::MAX
    &&& name_len(name) <= usize::MAX / MAX_WORD
    &&& word.len() <= MAX_WORD || word.len() > name_len(name)
}

/// The first place from `from` on and below `end` whose character folds to `c`.
pub open spec fn first_place(seen: Seq<char>, c: char, from: int, end: int) -> Option<int>
    decreases end - from,
{
    if from >= end {
        None
    } else if folded(seen[from]) == c {
        Some(from)
    } else {
        first_place(seen, c, from + 1, end)
    }
}

/// The last place from `from` on and below `end` whose character folds to `c`.
pub open spec fn last_place(seen: Seq<char>, c: char, from: int, end: int) -> Option<int>
    decreases end - from,
{
    if from >= end {
        None
    } else if folded(seen[end - 1]) == c {
        Some(end - 1)
    } else {
        last_place(seen, c, from, end - 1)
    }
}

/// `n` rounded up to a multiple of `by`.
pub open spec fn rounded_up(n: int, by: int) -> int {
    (n + by - 1) / by * by
}

/// The bytes that the matcher's table for a word of `n` characters in a stretch of
/// `h` takes.
pub open spec fn table_size(h: int, n: int) -> int {
    rounded_up(rounded_up(5 * h, 2) + 2 * n, 8) + 8 * (h + 1 - n) + (h + 1 - n) * n
}

/// Whether the matcher holds a word of `n` characters against a stretch of `h` in a
/// table; else it takes the first match that it finds.
pub open spec fn in_table(h: int, n: int) -> bool {
    h <= 65_535 && n <= 2_048 && h * n <= 102_400 && table_size(h, n) <= 133_120
}

/// What a character is scored as where case is ignored and accents are not.
pub open spec fn scored_as(c: char) -> char {
    if folds_in_part(c) {
        c
    } else {
        folded(c)
    }
}

/// Whether the characters of `word` from `k` on are scored in this order among those
/// of `seen` from `from` on and below `end`.
pub open spec fn in_order(word: Seq<char>, k: int, seen: Seq<char>, from: int, end: int) -> bool
    decreases end - from,
{
    if k >= word.len() {
        true
    } else if from >= end {
        false
    } else if scored_as(seen[from]) == word[k] {
        in_order(word, k + 1, seen, from + 1, end)
    } else {
        in_order(word, k, seen, from + 1, end)
    }
}

/// Whether the matcher scores a word with gaps in a stretch of a name that begins
/// with a character which it folds in part: it finds the first character of the word
/// there and then does not score it.
pub open spec fn begins_unevenly(word: Seq<char>, seen: Seq<char>) -> bool {
    &&& 2 <= word.len() < seen.len()
    &&& ignores_case(word)
    &&& !ignores_accents(word)
    &&& match first_place(seen, word[0], 0, seen.len() - word.len() + 1) {
        Some(start) => folds_in_part(seen[start]) && match last_place(
            seen,
            word.last(),
            start + 1,
            seen.len() as int,
        ) {
            Some(last) => last + 1 - start > word.len() && in_table(
                last + 1 - start,
                word.len() as int,
            ) && in_order(word, 0, seen, start, last + 1),
            None => false,
        },
        None => false,
    }
}

/// Whether the matcher takes a word for a name.
pub open spec fn takes_word(word: (bool, Seq<char>), name: Seq<char>) -> bool {
    fits(word.1, name) && !(word.0 && begins_unevenly(word.1, seen_chars(name)))
}

/// Whether the matcher takes a query for a name.
pub open spec fn admits(query: Seq<char>, name: Seq<char>) -> bool {
    &&& query.len() <= MAX_QUERY
    &&& forall|i: int|
        0 <= i < query_words(query).len() ==> takes_word(#[trigger] query_words(query)[i], name)
}

/// `nucleo_matcher::pattern::Pattern::score` for a parsed query and a matcher with
/// the default configuration. The score is left to the name `fuzzy_score`. The call
/// is made only where it cannot panic: the matcher asserts that a name is shorter
/// than two to the thirty-second, multiplies its length by that of a word, adds up
/// scores in sixteen and in thirty-two bits, and asserts of a word that is matched in
/// its table that the place at which it found the first character also scores as that
/// character.
#[verifier::external_body]
fn score(query: &str, name: &str) -> (res: Option<u32>)
    requires
        admits(query@, name@),
    ensures
        res == fuzzy_score(query@, name@),
{
    let pattern = Pattern::parse(query, CaseMatching::Smart, Normalization::Smart);
    let mut matcher = Matcher::new(Config::DEFAULT);
    let mut buf = Vec::new();
    pattern.score(Utf32Str::new(name, &mut buf), &mut matcher)
}

/// The score of a name for a query. A name that the matcher does not take for that
/// query does not match.
pub open spec fn score_of(query: Seq<char>, name: Seq<char>) -> Option<u32> {
    if admits(query, name) {
        fuzzy_score(query, name)
    } else {
        None
    }
}

// ---------------------------------------------------------------------------
// Asking
// ---------------------------------------------------------------------------
fn is_plain(chars: &Vec<char>) -> (res: bool)
    ensures
        res == plain(chars@),
{
    let mut i: usize = 0;
    while i < chars.len()
        invariant
            i <= chars@.len(),
            forall|k: int| 0 <= k < i ==> (#[trigger] chars@[k]) <= '\u{7f}',
        decreases chars@.len() - i,
    {
        if chars[i] > '\u{7f}' {
            assert(chars@[i as int] > '\u{7f}');
            return false;
        }
        i += 1;
    }
    true
}

fn is_case_ignored(word: &Vec<char>) -> (res: bool)
    ensures
        res == ignores_case(word@),
{
    let mut i: usize = 0;
    while i < word.len()
        invariant
            i <= word@.len(),
            forall|k: int| 0 <= k < i ==> folded(#[trigger] word@[k]) == word@[k],
        decreases word@.len() - i,
    {
        if fold(word[i]) != word[i] {
            assert(folded(word@[i as int]) != word@[i as int]);
            return false;
        }
        i += 1;
    }
    true
}

fn are_accents_ignored(word: &Vec<char>) -> (res: bool)
    ensures
        res == ignores_accents(word@),
{
    let mut i: usize = 0;
    while i < word.len()
        invariant
            i <= word@.len(),
            forall|k: int| 0 <= k < i ==> unaccented(#[trigger] word@[k]) == word@[k],
        decreases word@.len() - i,
    {
        if unaccent(word[i]) != word[i] {
            assert(unaccented(word@[i as int]) != word@[i as int]);
            return false;
        }
        i += 1;
    }
    true
}

fn find_first(seen: &Vec<char>, c: char, end: usize) -> (res: Option<usize>)
    requires
        end <= seen@.len(),
    ensures
        match res {
            Some(i) => first_place(seen@, c, 0, end as int) == Some(i as int) && i < end,
            None => first_place(seen@, c, 0, end as int) is None,
        },
{
    let mut i: usize = 0;
    while i < end
        invariant
            i <= end <= seen@.len(),
            first_place(seen@, c, i as int, end as int) == first_place(seen@, c, 0, end as int),
        decreases end - i,
    {
        if fold(seen[i]) == c {
            return Some(i);
        }
        i += 1;
    }
    None
}

fn find_last(seen: &Vec<char>, c: char, from: usize) -> (res: Option<usize>)
    requires
        from <= seen@.len(),
    ensures
        match res {
            Some(i) => last_place(seen@, c, from as int, seen@.len() as int) == Some(i as int)
                && from <= i < seen@.len(),
            None => last_place(seen@, c, from as int, seen@.len() as int) is None,
        },
{
    let mut i: usize = seen.len();
    while i > from
        invariant
            from <= i <= seen@.len(),
            last_place(seen@, c, from as int, i as int) == last_place(
                seen@,
                c,
                from as int,
                seen@.len() as int,
            ),
        decreases i,
    {
        if fold(seen[i - 1]) == c {
            return Some(i - 1);
        }
        i -= 1;
    }
    None
}

fn fits_table(h: usize, n: usize) -> (res: bool)
    requires
        n <= h,
    ensures
        res == in_table(h as int, n as int),
{
    if h > 65_535 || n > 2_048 {
        return false;
    }
    let (h, n): (u64, u64) = (h as u64, n as u64);
    assert(h * n <= 65_535 * 2_048) by (nonlinear_arith)
        requires
            h <= 65_535,
            n <= 2_048,
    ;
    assert((h + 1 - n) * n <= 65_536 * 2_048) by (nonlinear_arith)
        requires
            n <= h <= 65_535,
            n <= 2_048,
    ;
    if h * n > 102_400 {
        return false;
    }
    let rows: u64 = (5 * h + 1) / 2 * 2 + 2 * n;
    let cells: u64 = (rows + 7) / 8 * 8;
    cells + 8 * (h + 1 - n) + (h + 1 - n) * n <= 133_120
}

fn is_in_order(word: &Vec<char>, seen: &Vec<char>, from: usize, end: usize) -> (res: bool)
    requires
        from <= end <= seen@.len(),
    ensures
        res == in_order(word@, 0, seen@, from as int, end as int),
{
    let mut k: usize = 0;
    let mut i: usize = from;
    while k < word.len() && i < end
        invariant
            k <= word@.len(),
            from <= i <= end <= seen@.len(),
            in_order(word@, k as int, seen@, i as int, end as int) == in_order(
                word@,
                0,
                seen@,
                from as int,
                end as int,
            ),
        decreases end - i,
    {
        let c: char = seen[i];
        let scored: char = if is_folded_in_part(c) {
            c
        } else {
            fold(c)
        };
        if scored == word[k] {
            k += 1;
        }
        i += 1;
    }
    k == word.len()
}

fn is_begun_unevenly(word: &Vec<char>, seen: &Vec<char>) -> (res: bool)
    ensures
        res == begins_unevenly(word@, seen@),
{
    let n: usize = word.len();
    if n < 2 || n >= seen.len() || !is_case_ignored(word) || are_accents_ignored(word) {
        return false;
    }
    match find_first(seen, word[0], seen.len() - n + 1) {
        Some(start) => {
            if !is_folded_in_part(seen[start]) {
                return false;
            }
            match find_last(seen, word[n - 1], start + 1) {
                Some(last) => {
                    let h: usize = last - start + 1;
                    h > n && fits_table(h, n) && is_in_order(word, seen, start, last + 1)
                },
                None => false,
            }
        },
        None => false,
    }
}

fn len_of_name(name: &str, seen: &Vec<char>) -> (res: usize)
    requires
        seen@ == seen_chars(name@),
    ensures
        res == name_len(name@),
{
    if is_plain(seen) {
        text::byte_len(name)
    } else {
        seen.len()
    }
}

/// The words of a query, unless it is too long for the matcher.
pub(crate) fn words_of_query(query: &str) -> (res: Option<Vec<(bool, Vec<char>)>>)
    ensures
        match res {
            Some(words) => query@.len() <= MAX_QUERY && word_models(words@) == query_words(query@),
            None => query@.len() > MAX_QUERY,
        },
{
    if text::char_count(query) > MAX_QUERY {
        None
    } else {
        Some(split_query(query))
    }
}

/// Whether the matcher takes a query with these words for a name.
fn takes_words(query: &str, words: &Vec<(bool, Vec<char>)>, name: &str) -> (res: bool)
    requires
        query@.len() <= MAX_QUERY,
        word_models(words@) == query_words(query@),
    ensures
        res == admits(query@, name@),
{
    let ghost models = word_models(words@);
    let seen = see(name);
    let len: usize = len_of_name(name, &seen);
    let short = len as u64 <= u32::MAX as u64 && len <= usize::MAX / MAX_WORD;
    let mut i: usize = 0;
    while i < words.len()
        invariant
            i <= words@.len(),
            models == word_models(words@),
            models == query_words(query@),
            seen@ == seen_chars(name@),
            len == name_len(name@),
            short == (len <= u32::MAX && len <= usize::MAX / MAX_WORD),
            forall|k: int| 0 <= k < i ==> takes_word(#[trigger] models[k], name@),
        decreases words@.len() - i,
    {
        let (fuzzy, word) = &words[i];
        assert(models[i as int] == (words@[i as int].0, words@[i as int].1@));
        let fitting = short && (word.len() <= MAX_WORD || word.len() > len);
        if !fitting || (*fuzzy && is_begun_unevenly(word, &seen)) {
            assert(!takes_word(models[i as int], name@));
            return false;
        }
        i += 1;
    }
    true
}

/// Whether the matcher takes a query for a name.
pub fn takes(query: &str, name: &str) -> (res: bool)
    ensures
        res == admits(query@, name@),
{
    match words_of_query(query) {
        Some(words) => takes_words(query, &words, name),
        None => false,
    }
}

/// The score of a name for a query with these words.
pub(crate) fn score_with_words(
    query: &str,
    words: &Vec<(bool, Vec<char>)>,
    name: &str,
) -> (res: Option<u32>)
    requires
        query@.len() <= MAX_QUERY,
        word_models(words@) == query_words(query@),
    ensures
        res == score_of(query@, name@),
{
    if takes_words(query, words, name) {
        score(query, name)
    } else {
        None
    }
}

/// The score of a name for a query.
pub fn score_name(query: &str, name: &str) -> (res: Option<u32>)
    ensures
        res == score_of(query@, name@),
{
    match words_of_query(query) {
        Some(words) => score_with_words(query, &words, name),
        None => None,
    }
}

/// A query is taken for a name where it is not too long and every word of it is taken:
/// a word within the matcher's counters that does not, with gaps, begin unevenly. What
/// is not taken has no score.
pub proof fn law_what_the_matcher_takes(query: Seq<char>, name: Seq<char>, i: int)
    requires
        0 <= i < query_words(query).len(),
    ensures
        ({
            let word = query_words(query)[i];
            let length = name_len(name);
            let small = length <= u32::MAX && length <= usize::MAX / 2_520;
            &&& admits(query, name) ==> query.len() <= 59_652_323 && score_of(query, name)
                == fuzzy_score(query, name)
            &&& admits(query, name) ==> small && (word.1.len() <= 2_520 || word.1.len() > length)
                && !(word.0 && begins_unevenly(word.1, seen_chars(name)))
            &&& !admits(query, name) ==> score_of(query, name) is None
            &&& takes_word(word, name) <==> small && (word.1.len() <= 2_520 || word.1.len()
                > length) && !(word.0 && begins_unevenly(word.1, seen_chars(name)))
            &&& query.len() <= 59_652_323 && (forall|k: int|
                0 <= k < query_words(query).len() ==> takes_word(
                    #[trigger] query_words(query)[k],
                    name,
                )) ==> admits(query, name)
        }),
{
    assert(admits(query, name) ==> takes_word(query_words(query)[i], name));
}

/// A name is as long as its bytes where the matcher sees ASCII alone, else as the
/// characters that it sees.
pub proof fn law_names_are_measured_as_they_are_seen(name: Seq<char>, i: int)
    requires
        0 <= i < seen_chars(name).len(),
    ensures
        seen_chars(name)[i] > '\u{7f}' ==> name_len(name) == seen_chars(name).len(),
        (forall|k: int|
            0 <= k < seen_chars(name).len() ==> (#[trigger] seen_chars(name)[k]) <= '\u{7f}')
            ==> name_len(name) == text::utf8_len(name),
{
}

/// The place that is found first has the character, and none before it does; the one
/// that is found last likewise from the other side.
pub proof fn law_first_and_last_places(seen: Seq<char>, c: char, from: int, end: int)
    requires
        from <= end,
    ensures
        match first_place(seen, c, from, end) {
            Some(k) => from <= k < end && folded(seen[k]) == c && forall|i: int|
                from <= i < k ==> folded(#[trigger] seen[i]) != c,
            None => forall|i: int| from <= i < end ==> folded(#[trigger] seen[i]) != c,
        },
        match last_place(seen, c, from, end) {
            Some(k) => from <= k < end && folded(seen[k]) == c && forall|i: int|
                k < i < end ==> folded(#[trigger] seen[i]) != c,
            None => forall|i: int| from <= i < end ==> folded(#[trigger] seen[i]) != c,
        },
{
    lemma_first_place(seen, c, from, end);
    lemma_last_place(seen, c, from, end);
}

proof fn lemma_first_place(seen: Seq<char>, c: char, from: int, end: int)
    requires
        from <= end,
    ensures
        match first_place(seen, c, from, end) {
            Some(k) => from <= k < end && folded(seen[k]) == c && forall|i: int|
                from <= i < k ==> folded(#[trigger] seen[i]) != c,
            None => forall|i: int| from <= i < end ==> folded(#[trigger] seen[i]) != c,
        },
    decreases end - from,
{
    if from < end && folded(seen[from]) != c {
        lemma_first_place(seen, c, from + 1, end);
    }
}

proof fn lemma_last_place(seen: Seq<char>, c: char, from: int, end: int)
    requires
        from <= end,
    ensures
        match last_place(seen, c, from, end) {
            Some(k) => from <= k < end && folded(seen[k]) == c && forall|i: int|
                k < i < end ==> folded(#[trigger] seen[i]) != c,
            None => forall|i: int| from <= i < end ==> folded(#[trigger] seen[i]) != c,
        },
    decreases end - from,
{
    if from < end && folded(seen[end - 1]) != c {
        lemma_last_place(seen, c, from, end - 1);
    }
}

/// Whether `places` are ascending places from `from` on and below `end` at which the
/// characters of `word` from `k` on are scored.
pub open spec fn scored_at(
    places: Seq<int>,
    word: Seq<char>,
    k: int,
    seen: Seq<char>,
    from: int,
    end: int,
) -> bool {
    &&& places.len() == word.len() - k
    &&& forall|i: int|
        0 <= i < places.len() ==> from <= (#[trigger] places[i]) < end && scored_as(
            seen[places[i]],
        ) == word[k + i]
    &&& forall|i: int, j: int|
        0 <= i < j < places.len() ==> (#[trigger] places[i]) < (#[trigger] places[j])
}

/// A word is scored in order exactly where there are ascending places for its
/// characters.
pub proof fn law_words_are_scored_at_ascending_places(
    word: Seq<char>,
    k: int,
    seen: Seq<char>,
    from: int,
    end: int,
)
    requires
        0 <= k <= word.len(),
        from <= end,
    ensures
        in_order(word, k, seen, from, end) <==> exists|places: Seq<int>| #[trigger]
            scored_at(places, word, k, seen, from, end),
    decreases end - from,
{
    if k == word.len() {
        assert(scored_at(Seq::<int>::empty(), word, k, seen, from, end));
    } else if from >= end {
        if exists|places: Seq<int>| #[trigger] scored_at(places, word, k, seen, from, end) {
            let places = choose|places: Seq<int>| #[trigger]
                scored_at(places, word, k, seen, from, end);
            assert(from <= places[0] < end);
        }
    } else {
        let hit = scored_as(seen[from]) == word[k];
        if hit {
            law_words_are_scored_at_ascending_places(word, k + 1, seen, from + 1, end);
        } else {
            law_words_are_scored_at_ascending_places(word, k, seen, from + 1, end);
        }
        if in_order(word, k, seen, from, end) {
            if hit {
                let rest = choose|places: Seq<int>| #[trigger]
                    scored_at(places, word, k + 1, seen, from + 1, end);
                let places = seq![from] + rest;
                assert forall|i: int| 0 <= i < places.len() implies from <= (#[trigger] places[i])
                    < end && scored_as(seen[places[i]]) == word[k + i] by {
                    if i > 0 {
                        assert(places[i] == rest[i - 1]);
                    }
                }
                assert forall|i: int, j: int| 0 <= i < j < places.len() implies (
                #[trigger] places[i]) < (#[trigger] places[j]) by {
                    assert(places[j] == rest[j - 1]);
                    if i > 0 {
                        assert(places[i] == rest[i - 1]);
                    }
                }
                assert(scored_at(places, word, k, seen, from, end));
            } else {
                let places = choose|places: Seq<int>| #[trigger]
                    scored_at(places, word, k, seen, from + 1, end);
                assert(scored_at(places, word, k, seen, from, end));
            }
        }
        if exists|places: Seq<int>| #[trigger] scored_at(places, word, k, seen, from, end) {
            let places = choose|places: Seq<int>| #[trigger]
                scored_at(places, word, k, seen, from, end);
            assert(from <= places[0] < end && scored_as(seen[places[0]]) == word[k + 0]);
            if hit {
                let rest = places.drop_first();
                assert forall|i: int| 0 <= i < rest.len() implies from + 1 <= (#[trigger] rest[i])
                    < end && scored_as(seen[rest[i]]) == word[k + 1 + i] by {
                    assert(rest[i] == places[i + 1]);
                    assert(places[0] < places[i + 1]);
                }
                assert forall|i: int, j: int| 0 <= i < j < rest.len() implies (#[trigger] rest[i])
                    < (#[trigger] rest[j]) by {
                    assert(rest[i] == places[i + 1] && rest[j] == places[j + 1]);
                }
                assert(scored_at(rest, word, k + 1, seen, from + 1, end));
            } else {
                assert(places[0] > from);
                assert forall|i: int| 0 <= i < places.len() implies from + 1 <= (
                #[trigger] places[i]) < end && scored_as(seen[places[i]]) == word[k + i] by {
                    if i > 0 {
                        assert(places[0] < places[i]);
                    }
                }
                assert(scored_at(places, word, k, seen, from + 1, end));
            }
        }
    }
}

/// The matcher's table is bounded in each direction and in its cells.
pub proof fn law_tables_are_bounded(h: int, n: int)
    requires
        in_table(h, n),
    ensures
        h <= 65_535,
        n <= 2_048,
        h * n <= 102_400,
        table_size(h, n) <= 133_120,
{
}

/// Rounding up gives the next multiple.
pub proof fn law_rounding_up(n: int, by: int)
    requires
        by > 0,
    ensures
        n <= rounded_up(n, by) < n + by,
        rounded_up(n, by) % by == 0,
{
    let m = n + by - 1;
    vstd::arithmetic::div_mod::lemma_fundamental_div_mod(m, by);
    vstd::arithmetic::div_mod::lemma_mod_bound(m, by);
    vstd::arithmetic::mul::lemma_mul_is_commutative(by, m / by);
    vstd::arithmetic::div_mod::lemma_mod_multiples_basic(m / by, by);
}

} // verus!
