//! Text primitives over sequences of characters.
//!
//! Every function here works on the characters of a string and states its
//! result as a spec function on `Seq<char>`.
use vstd::prelude::*;

verus! {

/// `String::push` appends one character at the end.
pub assume_specification[ String::push ](s: &mut String, c: char)
    ensures
        final(s)@ == old(s)@.push(c),
;

/// `==` on string slices compares their characters.
pub assume_specification[ <str as PartialEq<str>>::eq ](s: &str, other: &str) -> (res: bool)
    ensures
        res == (s@ == other@),
;

/// The characters with Unicode's `White_Space` property.
pub open spec fn is_space(c: char) -> bool {
    let n = c as u32;
    ||| 0x9 <= n <= 0xD
    ||| n == 0x20
    ||| n == 0x85
    ||| n == 0xA0
    ||| n == 0x1680
    ||| 0x2000 <= n <= 0x200A
    ||| n == 0x2028
    ||| n == 0x2029
    ||| n == 0x202F
    ||| n == 0x205F
    ||| n == 0x3000
}

/// Whether `c` is white space.
pub fn is_whitespace(c: char) -> (res: bool)
    ensures
        res == is_space(c),
{
    let n: u32 = c as u32;
    (0x9 <= n && n <= 0xD) || n == 0x20 || n == 0x85 || n == 0xA0 || n == 0x1680 || (0x2000 <= n
        && n <= 0x200A) || n == 0x2028 || n == 0x2029 || n == 0x202F || n == 0x205F || n == 0x3000
}

/// The characters of `s`.
pub fn to_chars(s: &str) -> (res: Vec<char>)
    ensures
        res@ == s@,
{
    let mut out: Vec<char> = Vec::new();
    for c in it: s.chars()
        invariant
            it.seq() == s@,
            out@ == s@.take(it.index() as int),
    {
        proof {
            assert(s@.take(it.index() as int + 1) =~= s@.take(it.index() as int).push(c));
        }
        out.push(c);
    }
    assert(s@.take(s@.len() as int) =~= s@);
    out
}

/// The string made of `chars[from..to]`.
pub fn substring(chars: &Vec<char>, from: usize, to: usize) -> (res: String)
    requires
        from <= to <= chars@.len(),
    ensures
        res@ == chars@.subrange(from as int, to as int),
{
    let mut out = String::new();
    let mut i: usize = from;
    while i < to
        invariant
            from <= i <= to <= chars@.len(),
            out@ == chars@.subrange(from as int, i as int),
        decreases to - i,
    {
        proof {
            assert(chars@.subrange(from as int, i as int + 1) =~= chars@.subrange(from as int, i as int).push(chars@[i as int]));
        }
        out.push(chars[i]);
        i += 1;
    }
    out
}

/// `s` from character `from` to its end.
pub fn suffix(s: &str, from: usize) -> (res: String)
    requires
        from <= s@.len(),
    ensures
        res@ == s@.skip(from as int),
{
    let chars = to_chars(s);
    let out = substring(&chars, from, chars.len());
    assert(out@ =~= s@.skip(from as int));
    out
}

/// `s` without its last character, if it has one.
pub open spec fn without_last(s: Seq<char>) -> Seq<char> {
    if s.len() > 0 {
        s.drop_last()
    } else {
        s
    }
}

/// Drops the last character of `s`, if it has one.
pub fn drop_last_char(s: &mut String)
    ensures
        final(s)@ == without_last(old(s)@),
{
    let chars = to_chars(s.as_str());
    if chars.len() > 0 {
        let out = substring(&chars, 0, chars.len() - 1);
        assert(out@ =~= s@.drop_last());
        *s = out;
    }
}

/// The number of characters in `s`.
pub fn char_count(s: &str) -> (res: usize)
    ensures
        res == s@.len(),
{
    to_chars(s).len()
}

/// The number of bytes that `s` takes in UTF-8.
pub open spec fn utf8_len(s: Seq<char>) -> nat {
    vstd::utf8::encode_utf8(s).len()
}

/// The number of bytes in `s`.
pub fn byte_len(s: &str) -> (res: usize)
    ensures
        res == utf8_len(s@),
{
    s.as_bytes().len()
}

/// The concatenation of two strings.
pub fn concat(a: &str, b: &str) -> (res: String)
    ensures
        res@ == a@ + b@,
{
    let mut out = a.to_owned();
    out.append(b);
    out
}

/// The concatenation of three strings.
pub fn concat3(a: &str, b: &str, c: &str) -> (res: String)
    ensures
        res@ == a@ + b@ + c@,
{
    let mut out = concat(a, b);
    out.append(c);
    out
}

// ---------------------------------------------------------------------------
// Prefixes, suffixes, searching
// ---------------------------------------------------------------------------
/// Whether `s` begins with `prefix`.
pub fn starts_with(s: &str, prefix: &str) -> (res: bool)
    ensures
        res == prefix@.is_prefix_of(s@),
{
    let a = to_chars(s);
    let b = to_chars(prefix);
    matches_at(&a, 0, &b)
}

/// Whether `pat` occurs in `s` at character `at`.
pub open spec fn occurs_at(s: Seq<char>, pat: Seq<char>, at: int) -> bool {
    0 <= at && at + pat.len() <= s.len() && s.subrange(at, at + pat.len()) == pat
}

/// Whether `pat` occurs in `s`.
pub open spec fn has_substring(s: Seq<char>, pat: Seq<char>) -> bool {
    exists|at: int| occurs_at(s, pat, at)
}

/// Whether `pat` occurs in `s` at character `at`.
pub fn matches_at(s: &Vec<char>, at: usize, pat: &Vec<char>) -> (res: bool)
    requires
        at <= s@.len(),
    ensures
        res == occurs_at(s@, pat@, at as int),
{
    let len: usize = s.len();
    if pat.len() > len - at {
        return false;
    }
    let mut i: usize = 0;
    while i < pat.len()
        invariant
            i <= pat@.len(),
            at + pat@.len() <= len,
            len == s@.len(),
            forall|k: int| 0 <= k < i ==> s@[at + k] == pat@[k],
        decreases pat@.len() - i,
    {
        if s[at + i] != pat[i] {
            assert(s@.subrange(at as int, at + pat@.len())[i as int] != pat@[i as int]);
            return false;
        }
        i += 1;
    }
    assert(s@.subrange(at as int, at + pat@.len()) =~= pat@);
    true
}

/// Whether `pat` occurs in `s`.
pub fn contains(s: &str, pat: &str) -> (res: bool)
    ensures
        res == has_substring(s@, pat@),
{
    let a = to_chars(s);
    let b = to_chars(pat);
    let mut at: usize = 0;
    while at < a.len()
        invariant
            at <= a@.len(),
            a@ == s@,
            b@ == pat@,
            forall|k: int| 0 <= k < at ==> !occurs_at(s@, pat@, k),
        decreases a@.len() - at,
    {
        if matches_at(&a, at, &b) {
            return true;
        }
        at += 1;
    }
    let res = matches_at(&a, at, &b);
    res
}

/// The first place at or after `at` where `pat` occurs in `s`.
pub open spec fn find_from(s: Seq<char>, pat: Seq<char>, at: int) -> Option<int>
    decreases s.len() + 1 - at,
{
    if at + pat.len() > s.len() {
        None
    } else if occurs_at(s, pat, at) {
        Some(at)
    } else {
        find_from(s, pat, at + 1)
    }
}

/// The first place where `pat` occurs in `s`.
pub fn find(s: &str, pat: &str) -> (res: Option<usize>)
    ensures
        match res {
            Some(i) => find_from(s@, pat@, 0) == Some(i as int) && occurs_at(s@, pat@, i as int),
            None => find_from(s@, pat@, 0) is None,
        },
{
    let a = to_chars(s);
    let b = to_chars(pat);
    let mut at: usize = 0;
    while at < a.len() && b.len() <= a.len() - at
        invariant
            at <= a@.len(),
            a@ == s@,
            b@ == pat@,
            find_from(s@, pat@, at as int) == find_from(s@, pat@, 0),
        decreases a@.len() - at,
    {
        if matches_at(&a, at, &b) {
            return Some(at);
        }
        at += 1;
    }
    if matches_at(&a, at, &b) {
        return Some(at);
    }
    assert(at == a@.len() ==> find_from(s@, pat@, at + 1) is None);
    None
}

/// `s` without the run of `c` at its start.
pub open spec fn trim_start_char(s: Seq<char>, c: char) -> Seq<char>
    decreases s.len(),
{
    if s.len() > 0 && s[0] == c {
        trim_start_char(s.drop_first(), c)
    } else {
        s
    }
}

/// `s` without the run of `c` at its end.
pub open spec fn trim_end_char(s: Seq<char>, c: char) -> Seq<char>
    decreases s.len(),
{
    if s.len() > 0 && s.last() == c {
        trim_end_char(s.drop_last(), c)
    } else {
        s
    }
}

/// `s` without the run of `c` at its start.
pub fn trim_start_matches(s: &str, c: char) -> (res: String)
    ensures
        res@ == trim_start_char(s@, c),
{
    let chars = to_chars(s);
    let mut i: usize = 0;
    assert(chars@.skip(0) =~= s@);
    while i < chars.len() && chars[i] == c
        invariant
            i <= chars@.len(),
            trim_start_char(chars@.skip(i as int), c) == trim_start_char(s@, c),
        decreases chars@.len() - i,
    {
        assert(chars@.skip(i as int).drop_first() =~= chars@.skip(i + 1));
        i += 1;
    }
    let out = substring(&chars, i, chars.len());
    assert(out@ =~= chars@.skip(i as int));
    out
}

/// `s` without the run of `c` at its end.
pub fn trim_end_matches(s: &str, c: char) -> (res: String)
    ensures
        res@ == trim_end_char(s@, c),
{
    let chars = to_chars(s);
    let mut n: usize = chars.len();
    assert(chars@.take(n as int) =~= s@);
    while n > 0 && chars[n - 1] == c
        invariant
            n <= chars@.len(),
            trim_end_char(chars@.take(n as int), c) == trim_end_char(s@, c),
        decreases n,
    {
        assert(chars@.take(n as int).drop_last() =~= chars@.take(n - 1));
        n -= 1;
    }
    let out = substring(&chars, 0, n);
    assert(out@ =~= chars@.take(n as int));
    out
}

/// The text of `s` after `prefix`, when `s` begins with it.
pub open spec fn without_prefix(s: Seq<char>, prefix: Seq<char>) -> Option<Seq<char>> {
    if prefix.is_prefix_of(s) {
        Some(s.skip(prefix.len() as int))
    } else {
        None
    }
}

/// The text of `s` after `prefix`, when `s` begins with it.
pub fn strip_prefix(s: &str, prefix: &str) -> (res: Option<String>)
    ensures
        res.deep_view() == without_prefix(s@, prefix@),
{
    if starts_with(s, prefix) {
        let n: usize = char_count(prefix);
        Some(suffix(s, n))
    } else {
        None
    }
}

/// The index of the first `c` in `s`, or the length of `s` without one.
pub open spec fn first_index(s: Seq<char>, c: char) -> int
    decreases s.len(),
{
    if s.len() == 0 || s[0] == c {
        0
    } else {
        1 + first_index(s.drop_first(), c)
    }
}

/// `first_index` finds the least index at which `c` stands.
pub proof fn lemma_first_index(s: Seq<char>, c: char)
    ensures
        0 <= first_index(s, c) <= s.len(),
        forall|k: int| 0 <= k < first_index(s, c) ==> s[k] != c,
        first_index(s, c) < s.len() ==> s[first_index(s, c)] == c,
        s.contains(c) <==> first_index(s, c) < s.len(),
    decreases s.len(),
{
    if s.len() == 0 || s[0] == c {
    } else {
        let t = s.drop_first();
        lemma_first_index(t, c);
        let n = first_index(t, c);
        assert forall|k: int| 0 <= k < n + 1 implies s[k] != c by {
            if k > 0 {
                assert(t[k - 1] == s[k]);
            }
        }
        if n < t.len() {
            assert(t[n] == s[n + 1]);
        }
    }
}

/// The only index with that property is `first_index`.
pub proof fn lemma_first_index_unique(s: Seq<char>, c: char, n: int)
    requires
        0 <= n <= s.len(),
        forall|k: int| 0 <= k < n ==> s[k] != c,
        n < s.len() ==> s[n] == c,
    ensures
        first_index(s, c) == n,
{
    lemma_first_index(s, c);
    let m = first_index(s, c);
    if m < n {
        assert(s[m] != c);
    }
    if n < m {
        assert(s[n] != c);
    }
}

/// The index of the first `c` at or after `from`, or the length of `chars`.
pub fn next_index(chars: &Vec<char>, from: usize, c: char) -> (res: usize)
    requires
        from <= chars@.len(),
    ensures
        from <= res <= chars@.len(),
        res == from + first_index(chars@.skip(from as int), c),
{
    let mut i: usize = from;
    while i < chars.len() && chars[i] != c
        invariant
            from <= i <= chars@.len(),
            forall|k: int| from <= k < i ==> chars@[k] != c,
        decreases chars@.len() - i,
    {
        i += 1;
    }
    proof {
        let s = chars@.skip(from as int);
        assert forall|k: int| 0 <= k < i - from implies s[k] != c by {
            assert(s[k] == chars@[from + k]);
        }
        lemma_first_index_unique(s, c, i - from);
    }
    i
}

/// The parts of `s` before and after the first `c`.
pub open spec fn cut(s: Seq<char>, c: char) -> Option<(Seq<char>, Seq<char>)> {
    let i = first_index(s, c);
    if i < s.len() {
        Some((s.take(i), s.skip(i + 1)))
    } else {
        None
    }
}

/// The parts of `s` before and after the first `c`, if there is one.
pub fn split_once(s: &str, c: char) -> (res: Option<(String, String)>)
    ensures
        res.deep_view() == cut(s@, c),
{
    let chars = to_chars(s);
    let i: usize = next_index(&chars, 0, c);
    proof {
        assert(chars@.skip(0) =~= s@);
    }
    if i < chars.len() {
        let a = substring(&chars, 0, i);
        let b = substring(&chars, i + 1, chars.len());
        assert(a@ =~= s@.take(i as int));
        assert(b@ =~= s@.skip(i + 1));
        Some((a, b))
    } else {
        None
    }
}

// ---------------------------------------------------------------------------
// Splitting
// ---------------------------------------------------------------------------
/// The pieces of `s` between the occurrences of `c`.
pub open spec fn pieces(s: Seq<char>, c: char) -> Seq<Seq<char>>
    decreases s.len(),
{
    let i = first_index(s, c);
    if !(0 <= i < s.len()) {
        seq![s]
    } else {
        seq![s.take(i)] + pieces(s.skip(i + 1), c)
    }
}

/// The pieces of `s` between the occurrences of `c`, in order.
pub fn split(s: &str, c: char) -> (res: Vec<String>)
    ensures
        res.deep_view() == pieces(s@, c),
        res@.len() >= 1,
{
    let chars = to_chars(s);
    let mut out: Vec<String> = Vec::new();
    let mut from: usize = 0;
    proof {
        assert(chars@.skip(0) =~= s@);
        assert(out.deep_view() + pieces(chars@.skip(0), c) =~= pieces(s@, c));
    }
    loop
        invariant
            from <= chars@.len(),
            chars@ == s@,
            out.deep_view() + pieces(chars@.skip(from as int), c) == pieces(s@, c),
        decreases chars@.len() - from,
    {
        let end: usize = next_index(&chars, from, c);
        let piece = substring(&chars, from, end);
        let ghost rest = chars@.skip(from as int);
        let ghost before = out.deep_view();
        proof {
            lemma_first_index(rest, c);
        }
        out.push(piece);
        if end == chars.len() {
            proof {
                assert(piece@ =~= rest);
                assert(out.deep_view() =~= before + seq![rest]);
                assert(pieces(rest, c) =~= seq![rest]);
            }
            return out;
        }
        proof {
            assert(piece@ =~= rest.take(end - from));
            assert(rest.skip(end - from + 1) =~= chars@.skip(end + 1));
            assert(out.deep_view() =~= before + seq![piece@]);
            assert(before + (seq![piece@] + pieces(chars@.skip(end + 1), c)) =~= (before + seq![
                piece@,
            ]) + pieces(chars@.skip(end + 1), c));
        }
        from = end + 1;
    }
}

/// The pieces of `s` at the first `n - 1` occurrences of `c`; the last piece
/// keeps the rest as it stands.
pub open spec fn pieces_n(s: Seq<char>, c: char, n: nat) -> Seq<Seq<char>>
    decreases n,
{
    let i = first_index(s, c);
    if n == 0 {
        seq![]
    } else if n == 1 || i >= s.len() {
        seq![s]
    } else {
        seq![s.take(i)] + pieces_n(s.skip(i + 1), c, (n - 1) as nat)
    }
}

/// At most `n` pieces of `s`, split at the first occurrences of `c`.
pub fn splitn(s: &str, n: usize, c: char) -> (res: Vec<String>)
    ensures
        res.deep_view() == pieces_n(s@, c, n as nat),
    decreases n,
{
    if n == 0 {
        let out: Vec<String> = Vec::new();
        assert(out.deep_view() =~= pieces_n(s@, c, 0));
        return out;
    }
    let mut out: Vec<String> = Vec::new();
    match split_once(s, c) {
        Some((a, b)) if n > 1 => {
            proof {
                lemma_first_index(s@, c);
            }
            let mut rest = splitn(b.as_str(), n - 1, c);
            let ghost tail = rest.deep_view();
            out.push(a);
            out.append(&mut rest);
            assert(out.deep_view() =~= seq![a@] + tail);
        },
        _ => {
            out.push(s.to_owned());
            assert(out.deep_view() =~= seq![s@]);
        },
    }
    out
}

/// `s` without one `\r` at its end.
pub open spec fn strip_cr(s: Seq<char>) -> Seq<char> {
    if s.len() > 0 && s.last() == '\r' {
        s.drop_last()
    } else {
        s
    }
}

/// The lines of `s`: its pieces at `\n`, with a `\r` before the `\n` dropped
/// and no empty last line after a final `\n`.
pub open spec fn lines_of(s: Seq<char>) -> Seq<Seq<char>>
    decreases s.len(),
{
    let i = first_index(s, '\n');
    if s.len() == 0 {
        seq![]
    } else if !(0 <= i < s.len()) {
        seq![s]
    } else {
        seq![strip_cr(s.take(i))] + lines_of(s.skip(i + 1))
    }
}

/// The lines of `s`, without their line ends.
pub fn lines(s: &str) -> (res: Vec<String>)
    ensures
        res.deep_view() == lines_of(s@),
{
    let chars = to_chars(s);
    let mut out: Vec<String> = Vec::new();
    let mut from: usize = 0;
    proof {
        assert(chars@.skip(0) =~= s@);
        assert(out.deep_view() + lines_of(chars@.skip(0)) =~= lines_of(s@));
    }
    while from < chars.len()
        invariant
            from <= chars@.len(),
            chars@ == s@,
            out.deep_view() + lines_of(chars@.skip(from as int)) == lines_of(s@),
        decreases chars@.len() - from,
    {
        let end: usize = next_index(&chars, from, '\n');
        let ghost rest = chars@.skip(from as int);
        let ghost before = out.deep_view();
        proof {
            lemma_first_index(rest, '\n');
        }
        if end == chars.len() {
            let piece = substring(&chars, from, end);
            out.push(piece);
            proof {
                assert(piece@ =~= rest);
                assert(out.deep_view() =~= before + seq![rest]);
            }
            return out;
        }
        let stop: usize = if end > from && chars[end - 1] == '\r' {
            end - 1
        } else {
            end
        };
        let piece = substring(&chars, from, stop);
        out.push(piece);
        proof {
            let line = rest.take(end - from);
            assert(line.len() > 0 ==> line.last() == chars@[end - 1]);
            assert(piece@ =~= strip_cr(line));
            assert(rest.skip(end - from + 1) =~= chars@.skip(end + 1));
            assert(out.deep_view() =~= before + seq![piece@]);
            assert(before + (seq![piece@] + lines_of(chars@.skip(end + 1))) =~= (before + seq![
                piece@,
            ]) + lines_of(chars@.skip(end + 1)));
        }
        from = end + 1;
    }
    assert(out.deep_view() + lines_of(chars@.skip(from as int)) =~= out.deep_view());
    out
}

// ---------------------------------------------------------------------------
// White space
// ---------------------------------------------------------------------------
/// The number of white space characters at the start of `s`.
pub open spec fn space_run(s: Seq<char>) -> int
    decreases s.len(),
{
    if s.len() == 0 || !is_space(s[0]) {
        0
    } else {
        1 + space_run(s.drop_first())
    }
}

/// The number of characters at the start of `s` that are not white space.
pub open spec fn word_run(s: Seq<char>) -> int
    decreases s.len(),
{
    if s.len() == 0 || is_space(s[0]) {
        0
    } else {
        1 + word_run(s.drop_first())
    }
}

/// `s` without the white space at its start.
pub open spec fn trim_start_of(s: Seq<char>) -> Seq<char> {
    s.skip(space_run(s))
}

/// `s` without the white space at its end.
pub open spec fn trim_end_of(s: Seq<char>) -> Seq<char>
    decreases s.len(),
{
    if s.len() > 0 && is_space(s.last()) {
        trim_end_of(s.drop_last())
    } else {
        s
    }
}

/// `s` without the white space at its ends.
pub open spec fn trimmed(s: Seq<char>) -> Seq<char> {
    trim_end_of(trim_start_of(s))
}

/// The words of `s`: its maximal runs without white space.
pub open spec fn words_of(s: Seq<char>) -> Seq<Seq<char>>
    decreases s.len(),
{
    let k = space_run(s);
    let t = s.skip(k);
    let n = word_run(t);
    if !(0 <= k <= s.len() && 0 < n <= t.len()) {
        seq![]
    } else {
        seq![t.take(n)] + words_of(t.skip(n))
    }
}

/// `space_run` and `word_run` are the longest such runs.
pub proof fn lemma_runs(s: Seq<char>)
    ensures
        0 <= space_run(s) <= s.len(),
        forall|k: int| 0 <= k < space_run(s) ==> is_space(s[k]),
        space_run(s) < s.len() ==> !is_space(s[space_run(s)]),
        0 <= word_run(s) <= s.len(),
        forall|k: int| 0 <= k < word_run(s) ==> !is_space(s[k]),
        word_run(s) < s.len() ==> is_space(s[word_run(s)]),
    decreases s.len(),
{
    if s.len() > 0 {
        let t = s.drop_first();
        lemma_runs(t);
        assert forall|k: int| 0 <= k < space_run(s) implies is_space(s[k]) by {
            if k > 0 {
                assert(t[k - 1] == s[k]);
            }
        }
        assert forall|k: int| 0 <= k < word_run(s) implies !is_space(s[k]) by {
            if k > 0 {
                assert(t[k - 1] == s[k]);
            }
        }
        if is_space(s[0]) {
            if space_run(t) < t.len() {
                assert(t[space_run(t)] == s[space_run(s)]);
            }
        } else {
            if word_run(t) < t.len() {
                assert(t[word_run(t)] == s[word_run(s)]);
            }
        }
    }
}

/// No word is empty.
pub proof fn lemma_words_not_empty(s: Seq<char>)
    ensures
        forall|i: int| 0 <= i < words_of(s).len() ==> (#[trigger] words_of(s)[i]).len() > 0,
    decreases s.len(),
{
    let k = space_run(s);
    let t = s.skip(k);
    let n = word_run(t);
    if 0 <= k <= s.len() && 0 < n <= t.len() {
        let rest = words_of(t.skip(n));
        lemma_words_not_empty(t.skip(n));
        assert forall|i: int| 0 <= i < words_of(s).len() implies (#[trigger] words_of(s)[i]).len()
            > 0 by {
            if i > 0 {
                assert(words_of(s)[i] == rest[i - 1]);
            }
        }
    }
}

/// The bytes of a concatenation are those of its parts.
pub proof fn lemma_utf8_len_concat(a: Seq<char>, b: Seq<char>)
    ensures
        utf8_len(a + b) == utf8_len(a) + utf8_len(b),
    decreases a.len(),
{
    if a.len() == 0 {
        assert(a + b =~= b);
    } else {
        lemma_utf8_len_concat(a.drop_first(), b);
        assert((a + b).drop_first() =~= a.drop_first() + b);
    }
}

/// A character takes at least one byte.
pub proof fn lemma_utf8_len_char(c: char)
    ensures
        utf8_len(seq![c]) >= 1,
{
    reveal_with_fuel(vstd::utf8::encode_utf8, 2);
}

/// An ASCII character takes one byte.
pub proof fn lemma_utf8_len_ascii(c: char)
    requires
        (c as u32) < 0x80,
    ensures
        utf8_len(seq![c]) == 1,
{
    reveal_with_fuel(vstd::utf8::encode_utf8, 2);
}

/// The index of the first character at or after `from` that is not white space.
fn skip_spaces(chars: &Vec<char>, from: usize) -> (res: usize)
    requires
        from <= chars@.len(),
    ensures
        from <= res <= chars@.len(),
        res == from + space_run(chars@.skip(from as int)),
{
    let mut i: usize = from;
    while i < chars.len() && is_whitespace(chars[i])
        invariant
            from <= i <= chars@.len(),
            forall|k: int| from <= k < i ==> is_space(#[trigger] chars@[k]),
        decreases chars@.len() - i,
    {
        i += 1;
    }
    proof {
        let s = chars@.skip(from as int);
        lemma_runs(s);
        let m = space_run(s);
        if m < i - from {
            assert(s[m] == chars@[from + m]);
        }
        if i - from < m {
            assert(s[i - from] == chars@[i as int]);
        }
    }
    i
}

/// The index of the first white space at or after `from`.
fn skip_word(chars: &Vec<char>, from: usize) -> (res: usize)
    requires
        from <= chars@.len(),
    ensures
        from <= res <= chars@.len(),
        res == from + word_run(chars@.skip(from as int)),
{
    let mut i: usize = from;
    while i < chars.len() && !is_whitespace(chars[i])
        invariant
            from <= i <= chars@.len(),
            forall|k: int| from <= k < i ==> !is_space(#[trigger] chars@[k]),
        decreases chars@.len() - i,
    {
        i += 1;
    }
    proof {
        let s = chars@.skip(from as int);
        lemma_runs(s);
        let m = word_run(s);
        if m < i - from {
            assert(s[m] == chars@[from + m]);
        }
        if i - from < m {
            assert(s[i - from] == chars@[i as int]);
        }
    }
    i
}

/// `s` without the white space at its ends.
pub fn trim(s: &str) -> (res: String)
    ensures
        res@ == trimmed(s@),
{
    let chars = to_chars(s);
    let from: usize = skip_spaces(&chars, 0);
    proof {
        assert(chars@.skip(0) =~= s@);
        assert(chars@.subrange(from as int, chars@.len() as int) =~= trim_start_of(s@));
    }
    let mut to: usize = chars.len();
    while to > from && is_whitespace(chars[to - 1])
        invariant
            from <= to <= chars@.len(),
            trim_end_of(chars@.subrange(from as int, to as int)) == trimmed(s@),
        decreases to,
    {
        proof {
            let t = chars@.subrange(from as int, to as int);
            assert(t.last() == chars@[to - 1]);
            assert(t.drop_last() =~= chars@.subrange(from as int, to - 1));
        }
        to -= 1;
    }
    proof {
        let t = chars@.subrange(from as int, to as int);
        if to > from {
            assert(t.last() == chars@[to - 1]);
        }
    }
    substring(&chars, from, to)
}

/// The words of `s`, in order.
pub fn split_whitespace(s: &str) -> (res: Vec<String>)
    ensures
        res.deep_view() == words_of(s@),
{
    let chars = to_chars(s);
    let mut out: Vec<String> = Vec::new();
    let mut at: usize = 0;
    proof {
        assert(chars@.skip(0) =~= s@);
        assert(out.deep_view() + words_of(chars@.skip(0)) =~= words_of(s@));
    }
    loop
        invariant
            at <= chars@.len(),
            chars@ == s@,
            out.deep_view() + words_of(chars@.skip(at as int)) == words_of(s@),
        decreases chars@.len() - at,
    {
        let ghost rest = chars@.skip(at as int);
        let ghost before = out.deep_view();
        let from: usize = skip_spaces(&chars, at);
        let to: usize = skip_word(&chars, from);
        proof {
            lemma_runs(rest);
            lemma_runs(rest.skip(from - at));
            assert(rest.skip(from - at) =~= chars@.skip(from as int));
        }
        if from == to {
            assert(before + words_of(rest) =~= before);
            return out;
        }
        let word = substring(&chars, from, to);
        out.push(word);
        proof {
            let t = chars@.skip(from as int);
            assert(word@ =~= t.take(to - from));
            assert(t.skip(to - from) =~= chars@.skip(to as int));
            assert(out.deep_view() =~= before + seq![word@]);
            assert(before + (seq![word@] + words_of(chars@.skip(to as int))) =~= (before + seq![
                word@,
            ]) + words_of(chars@.skip(to as int)));
        }
        at = to;
    }
}

// ---------------------------------------------------------------------------
// Joining and replacing
// ---------------------------------------------------------------------------
/// `parts` with `sep` between neighbours.
pub open spec fn joined(parts: Seq<Seq<char>>, sep: Seq<char>) -> Seq<char>
    decreases parts.len(),
{
    if parts.len() == 0 {
        seq![]
    } else if parts.len() == 1 {
        parts[0]
    } else {
        joined(parts.drop_last(), sep) + sep + parts.last()
    }
}

/// `parts` with `sep` between neighbours.
pub fn join(parts: &Vec<String>, sep: &str) -> (res: String)
    ensures
        res@ == joined(parts.deep_view(), sep@),
{
    let mut out = String::new();
    let mut i: usize = 0;
    while i < parts.len()
        invariant
            i <= parts@.len(),
            out@ == joined(parts.deep_view().take(i as int), sep@),
        decreases parts@.len() - i,
    {
        proof {
            let t = parts.deep_view().take(i + 1);
            assert(t.drop_last() =~= parts.deep_view().take(i as int));
            assert(t.last() == parts@[i as int]@);
        }
        if i > 0 {
            out.append(sep);
        }
        out.append(parts[i].as_str());
        assert(out@ =~= joined(parts.deep_view().take(i + 1), sep@));
        i += 1;
    }
    assert(parts.deep_view().take(i as int) =~= parts.deep_view());
    out
}

/// `s` with every `c` replaced by `with`.
pub open spec fn replaced(s: Seq<char>, c: char, with: Seq<char>) -> Seq<char>
    decreases s.len(),
{
    if s.len() == 0 {
        seq![]
    } else if s.last() == c {
        replaced(s.drop_last(), c, with) + with
    } else {
        replaced(s.drop_last(), c, with).push(s.last())
    }
}

/// `s` with every `c` replaced by `with`.
pub fn replace_char(s: &str, c: char, with: &str) -> (res: String)
    ensures
        res@ == replaced(s@, c, with@),
{
    let chars = to_chars(s);
    let mut out = String::new();
    let mut i: usize = 0;
    while i < chars.len()
        invariant
            i <= chars@.len(),
            out@ == replaced(chars@.take(i as int), c, with@),
        decreases chars@.len() - i,
    {
        proof {
            let t = chars@.take(i + 1);
            assert(t.drop_last() =~= chars@.take(i as int));
            assert(t.last() == chars@[i as int]);
        }
        if chars[i] == c {
            out.append(with);
        } else {
            out.push(chars[i]);
        }
        i += 1;
    }
    assert(chars@.take(i as int) =~= s@);
    out
}

/// `n` copies of `c`.
pub open spec fn repeated(c: char, n: nat) -> Seq<char> {
    Seq::new(n, |i: int| c)
}

/// `n` copies of `c`.
pub fn repeat_char(c: char, n: usize) -> (res: String)
    ensures
        res@ == repeated(c, n as nat),
{
    let mut out = String::new();
    let mut i: usize = 0;
    while i < n
        invariant
            i <= n,
            out@ == repeated(c, i as nat),
        decreases n - i,
    {
        out.push(c);
        i += 1;
        assert(out@ =~= repeated(c, i as nat));
    }
    out
}

/// `s` followed by enough spaces to be `width` characters wide.
pub open spec fn padded_right(s: Seq<char>, width: nat) -> Seq<char> {
    if s.len() >= width {
        s
    } else {
        s + repeated(' ', (width - s.len()) as nat)
    }
}

/// `s` followed by enough spaces to be `width` characters wide.
pub fn pad_right(s: &str, width: usize) -> (res: String)
    ensures
        res@ == padded_right(s@, width as nat),
{
    let n: usize = char_count(s);
    if n >= width {
        s.to_owned()
    } else {
        let fill = repeat_char(' ', width - n);
        concat(s, fill.as_str())
    }
}

/// `s` preceded by enough of `fill` to be `width` characters wide.
pub open spec fn padded_left(s: Seq<char>, fill: char, width: nat) -> Seq<char> {
    if s.len() >= width {
        s
    } else {
        repeated(fill, (width - s.len()) as nat) + s
    }
}

/// `s` preceded by enough of `fill` to be `width` characters wide.
pub fn pad_left(s: &str, fill: char, width: usize) -> (res: String)
    ensures
        res@ == padded_left(s@, fill, width as nat),
{
    let n: usize = char_count(s);
    if n >= width {
        s.to_owned()
    } else {
        let front = repeat_char(fill, width - n);
        concat(front.as_str(), s)
    }
}

/// The first `n` characters of `s`, or all of a shorter `s`.
pub open spec fn first_chars(s: Seq<char>, n: nat) -> Seq<char> {
    if s.len() <= n {
        s
    } else {
        s.take(n as int)
    }
}

/// The first `n` characters of `s`, or all of a shorter `s`.
pub fn take_chars(s: &str, n: usize) -> (res: String)
    ensures
        res@ == first_chars(s@, n as nat),
{
    let chars = to_chars(s);
    if chars.len() <= n {
        s.to_owned()
    } else {
        let out = substring(&chars, 0, n);
        assert(out@ =~= s@.take(n as int));
        out
    }
}

// ---------------------------------------------------------------------------
// Numbers
// ---------------------------------------------------------------------------
/// The decimal digit `d`.
pub open spec fn digit_char(d: nat) -> char {
    (48 + d) as char
}

/// `n` in decimal, without leading zeros.
pub open spec fn digits(n: nat) -> Seq<char>
    decreases n,
{
    if n < 10 {
        seq![digit_char(n)]
    } else {
        digits(n / 10).push(digit_char(n % 10))
    }
}

/// `n` in decimal.
pub fn decimal(n: u64) -> (res: String)
    ensures
        res@ == digits(n as nat),
    decreases n,
{
    let last: u8 = 48u8 + (n % 10) as u8;
    if n < 10 {
        let mut out = String::new();
        out.push(last as char);
        assert(out@ =~= digits(n as nat));
        out
    } else {
        let mut out = decimal(n / 10);
        out.push(last as char);
        out
    }
}

/// `n` in decimal, with a leading `-` below zero.
pub open spec fn signed_digits(n: int) -> Seq<char> {
    if n < 0 {
        seq!['-'] + digits((-n) as nat)
    } else {
        digits(n as nat)
    }
}

/// `n` in decimal.
pub fn signed_decimal(n: i64) -> (res: String)
    ensures
        res@ == signed_digits(n as int),
{
    if n < 0 {
        let mut out = String::new();
        out.push('-');
        let magnitude: u64 = (-(n as i128)) as u64;
        let tail = decimal(magnitude);
        assert(out@ =~= seq!['-']);
        out.append(tail.as_str());
        out
    } else {
        decimal(n as u64)
    }
}

/// Whether `c` is one of `0` to `9`.
pub open spec fn is_digit(c: char) -> bool {
    '0' <= c <= '9'
}

/// Whether `s` consists of digits.
pub open spec fn all_digits(s: Seq<char>) -> bool {
    forall|i: int| 0 <= i < s.len() ==> is_digit(#[trigger] s[i])
}

/// The number that a sequence of digits writes.
pub open spec fn number_value(s: Seq<char>) -> nat
    decreases s.len(),
{
    if s.len() == 0 {
        0
    } else {
        number_value(s.drop_last()) * 10 + (s.last() as nat - 48) as nat
    }
}

/// `s` without one leading `+`.
pub open spec fn strip_plus(s: Seq<char>) -> Seq<char> {
    if s.len() > 0 && s[0] == '+' {
        s.drop_first()
    } else {
        s
    }
}

/// The value of an unsigned decimal number up to `max`: digits, at least one,
/// after an optional `+`.
pub open spec fn unsigned_value(s: Seq<char>, max: nat) -> Option<nat> {
    let t = strip_plus(s);
    if t.len() > 0 && all_digits(t) && number_value(t) <= max {
        Some(number_value(t))
    } else {
        None
    }
}

/// A longer prefix of digits never writes a smaller number.
proof fn lemma_number_grows(s: Seq<char>, i: int)
    requires
        0 <= i <= s.len(),
    ensures
        number_value(s.take(i)) <= number_value(s),
    decreases s.len(),
{
    if i == s.len() {
        assert(s.take(i) =~= s);
    } else {
        let t = s.drop_last();
        lemma_number_grows(t, i);
        assert(t.take(i) =~= s.take(i));
    }
}

/// The number that `s` writes, if it writes one up to `max`.
pub fn parse_unsigned(s: &str, max: u64) -> (res: Option<u64>)
    ensures
        res.is_some() == unsigned_value(s@, max as nat).is_some(),
        res.is_some() ==> res.unwrap() as nat == unsigned_value(s@, max as nat).unwrap(),
{
    let chars = to_chars(s);
    let from: usize = if chars.len() > 0 && chars[0] == '+' {
        1
    } else {
        0
    };
    let ghost t = strip_plus(s@);
    assert(t =~= chars@.skip(from as int));
    if from == chars.len() {
        return None;
    }
    let mut value: u128 = 0;
    let mut i: usize = from;
    while i < chars.len()
        invariant
            from <= i <= chars@.len(),
            t == chars@.skip(from as int),
            t == strip_plus(s@),
            t.len() > 0,
            value <= max,
            value == number_value(t.take(i - from)),
            forall|k: int| 0 <= k < i - from ==> is_digit(#[trigger] t[k]),
        decreases chars@.len() - i,
    {
        let c = chars[i];
        assert(t[i - from] == c);
        if c < '0' || c > '9' {
            assert(!is_digit(t[i - from]));
            return None;
        }
        proof {
            let u = t.take(i - from + 1);
            assert(u.drop_last() =~= t.take(i - from));
            assert(u.last() == c);
            lemma_number_grows(t, i - from + 1);
        }
        value = value * 10 + (c as u128 - 48);
        if value > max as u128 {
            return None;
        }
        i += 1;
    }
    assert(t.take(i - from) =~= t);
    Some(value as u64)
}

/// The `usize` that `s` writes, if it writes one.
pub fn parse_usize(s: &str) -> (res: Option<usize>)
    ensures
        res.is_some() == unsigned_value(s@, usize::MAX as nat).is_some(),
        res.is_some() ==> res.unwrap() as nat == unsigned_value(s@, usize::MAX as nat).unwrap(),
{
    match parse_unsigned(s, usize::MAX as u64) {
        Some(v) => Some(v as usize),
        None => None,
    }
}

/// The `u32` that `s` writes, if it writes one.
pub fn parse_u32(s: &str) -> (res: Option<u32>)
    ensures
        res.is_some() == unsigned_value(s@, u32::MAX as nat).is_some(),
        res.is_some() ==> res.unwrap() as nat == unsigned_value(s@, u32::MAX as nat).unwrap(),
{
    match parse_unsigned(s, u32::MAX as u64) {
        Some(v) => Some(v as u32),
        None => None,
    }
}

/// The value of a decimal number that an `i64` holds: digits, at least one, after
/// an optional sign.
pub open spec fn signed_value(s: Seq<char>) -> Option<int> {
    if s.len() > 0 && s[0] == '-' {
        let t = s.drop_first();
        if t.len() > 0 && all_digits(t) && number_value(t) <= 9223372036854775808 {
            Some(-(number_value(t) as int))
        } else {
            None
        }
    } else {
        match unsigned_value(s, i64::MAX as nat) {
            Some(v) => Some(v as int),
            None => None,
        }
    }
}

/// The `i64` that `s` writes, if it writes one.
pub fn parse_i64(s: &str) -> (res: Option<i64>)
    ensures
        res.is_some() == signed_value(s@).is_some(),
        res.is_some() ==> res.unwrap() as int == signed_value(s@).unwrap(),
{
    let chars = to_chars(s);
    if chars.len() > 0 && chars[0] == '-' {
        let tail = substring(&chars, 1, chars.len());
        assert(tail@ =~= s@.drop_first());
        if chars.len() > 1 && chars[1] == '+' {
            assert(!is_digit(tail@[0]));
            return None;
        }
        match parse_unsigned(tail.as_str(), 9223372036854775808) {
            Some(v) => Some((-(v as i128)) as i64),
            None => None,
        }
    } else {
        match parse_unsigned(s, i64::MAX as u64) {
            Some(v) => Some(v as i64),
            None => None,
        }
    }
}

// ---------------------------------------------------------------------------
// Order
// ---------------------------------------------------------------------------
/// Dictionary order by code point, which is also the order of the UTF-8 bytes.
pub open spec fn text_lt(a: Seq<char>, b: Seq<char>) -> bool
    decreases a.len(),
{
    if b.len() == 0 {
        false
    } else if a.len() == 0 {
        true
    } else if a[0] != b[0] {
        a[0] < b[0]
    } else {
        text_lt(a.drop_first(), b.drop_first())
    }
}

/// No text precedes itself.
pub proof fn lemma_text_lt_irreflexive(a: Seq<char>)
    ensures
        !text_lt(a, a),
    decreases a.len(),
{
    if a.len() > 0 {
        lemma_text_lt_irreflexive(a.drop_first());
    }
}

/// The order is transitive.
pub proof fn lemma_text_lt_transitive(a: Seq<char>, b: Seq<char>, c: Seq<char>)
    requires
        text_lt(a, b),
        text_lt(b, c),
    ensures
        text_lt(a, c),
    decreases a.len(),
{
    if a.len() > 0 && a[0] == b[0] && b[0] == c[0] {
        lemma_text_lt_transitive(a.drop_first(), b.drop_first(), c.drop_first());
    }
}

/// Two different texts are ordered one way or the other.
pub proof fn lemma_text_lt_total(a: Seq<char>, b: Seq<char>)
    ensures
        a == b || text_lt(a, b) || text_lt(b, a),
    decreases a.len(),
{
    if a.len() > 0 && b.len() > 0 && a[0] == b[0] {
        lemma_text_lt_total(a.drop_first(), b.drop_first());
        if a.drop_first() == b.drop_first() {
            assert(a =~= seq![a[0]] + a.drop_first());
            assert(b =~= seq![b[0]] + b.drop_first());
        }
    } else if a.len() == 0 && b.len() == 0 {
        assert(a =~= b);
    }
}

/// Whether `a` comes before `b` in dictionary order.
pub fn comes_before(a: &str, b: &str) -> (res: bool)
    ensures
        res == text_lt(a@, b@),
{
    let x = to_chars(a);
    let y = to_chars(b);
    let mut i: usize = 0;
    proof {
        assert(x@.skip(0) =~= a@);
        assert(y@.skip(0) =~= b@);
    }
    while i < x.len() && i < y.len() && x[i] == y[i]
        invariant
            i <= x@.len(),
            i <= y@.len(),
            text_lt(x@.skip(i as int), y@.skip(i as int)) == text_lt(a@, b@),
        decreases x@.len() - i,
    {
        proof {
            assert(x@.skip(i as int).drop_first() =~= x@.skip(i + 1));
            assert(y@.skip(i as int).drop_first() =~= y@.skip(i + 1));
        }
        i += 1;
    }
    if i == y.len() {
        false
    } else if i == x.len() {
        true
    } else {
        x[i] < y[i]
    }
}

/// Whether `c` occurs in `s`.
pub fn has_char(s: &str, c: char) -> (res: bool)
    ensures
        res == s@.contains(c),
{
    let chars = to_chars(s);
    let mut i: usize = 0;
    while i < chars.len()
        invariant
            i <= chars@.len(),
            chars@ == s@,
            forall|k: int| 0 <= k < i ==> s@[k] != c,
        decreases chars@.len() - i,
    {
        if chars[i] == c {
            assert(s@[i as int] == c);
            return true;
        }
        i += 1;
    }
    false
}

/// Whether `s` is one of the texts of `list`.
pub fn any_is(list: &[String], s: &str) -> (res: bool)
    ensures
        res == list.deep_view().contains(s@),
{
    let ghost all = list.deep_view();
    let mut i: usize = 0;
    while i < list.len()
        invariant
            i <= list@.len(),
            all == list.deep_view(),
            forall|k: int| 0 <= k < i ==> #[trigger] all[k] != s@,
        decreases list@.len() - i,
    {
        assert(all[i as int] == list@[i as int]@);
        if *list[i].as_str() == *s {
            assert(all.contains(all[i as int]));
            return true;
        }
        i += 1;
    }
    false
}

/// Whether `s` is one of the texts of `list`.
pub fn is_listed(list: &Vec<String>, s: &str) -> (res: bool)
    ensures
        res == list.deep_view().contains(s@),
{
    let texts = list.as_slice();
    assert(texts.deep_view() =~= list.deep_view());
    any_is(texts, s)
}

/// Where `trimmed` begins and ends.
pub open spec fn trim_bounds(s: Seq<char>) -> (int, int) {
    (space_run(s), space_run(s) + trimmed(s).len())
}

/// Trimming takes white space off both ends and nothing else: what is left stands in
/// the text as it was, all around it is white space, and neither end of it is.
pub proof fn law_trimming_takes_white_space_off(s: Seq<char>)
    ensures
        ({
            let (a, b) = trim_bounds(s);
            &&& 0 <= a <= b <= s.len()
            &&& trimmed(s) == s.subrange(a, b)
            &&& forall|i: int| 0 <= i < a || b <= i < s.len() ==> is_space(#[trigger] s[i])
            &&& a < b ==> !is_space(s[a]) && !is_space(s[b - 1])
        }),
{
    let a = space_run(s);
    lemma_space_run(s);
    let t = trim_start_of(s);
    assert(t =~= s.skip(a));
    lemma_trim_end(t);
    let b = a + trimmed(s).len();
    assert(trimmed(s) =~= s.subrange(a, b));
    assert forall|i: int| b <= i < s.len() implies is_space(#[trigger] s[i]) by {
        assert(t[i - a] == s[i]);
    }
    if a < b {
        assert(t[0] == s[a]);
        assert(t[b - a - 1] == s[b - 1]);
    }
}

proof fn lemma_space_run(s: Seq<char>)
    ensures
        0 <= space_run(s) <= s.len(),
        forall|i: int| 0 <= i < space_run(s) ==> is_space(#[trigger] s[i]),
        space_run(s) < s.len() ==> !is_space(s[space_run(s)]),
    decreases s.len(),
{
    if s.len() > 0 && is_space(s[0]) {
        let rest = s.drop_first();
        lemma_space_run(rest);
        assert forall|i: int| 0 <= i < space_run(s) implies is_space(#[trigger] s[i]) by {
            if i > 0 {
                assert(rest[i - 1] == s[i]);
            }
        }
        if space_run(s) < s.len() {
            assert(rest[space_run(s) - 1] == s[space_run(s)]);
        }
    }
}

proof fn lemma_trim_end(s: Seq<char>)
    ensures
        ({
            let n = trim_end_of(s).len();
            &&& n <= s.len()
            &&& trim_end_of(s) == s.take(n as int)
            &&& forall|i: int| n <= i < s.len() ==> is_space(#[trigger] s[i])
            &&& n > 0 ==> !is_space(s[n - 1])
        }),
    decreases s.len(),
{
    if s.len() > 0 && is_space(s.last()) {
        let rest = s.drop_last();
        lemma_trim_end(rest);
        let n = trim_end_of(s).len();
        assert(trim_end_of(s) =~= s.take(n as int));
        assert forall|i: int| n <= i < s.len() implies is_space(#[trigger] s[i]) by {
            if i < s.len() - 1 {
                assert(rest[i] == s[i]);
            }
        }
        if n > 0 {
            assert(rest[n - 1] == s[n - 1]);
        }
    } else {
        assert(s =~= s.take(s.len() as int));
    }
}

/// A number in decimal is digits without a needless zero in front, and reads back as
/// the number.
pub proof fn law_decimals_read_back(n: nat)
    ensures
        digits(n).len() > 0,
        all_digits(digits(n)),
        number_value(digits(n)) == n,
        n > 0 ==> digits(n)[0] != '0',
        n == 0 ==> digits(n).len() == 1,
    decreases n,
{
    let s = digits(n);
    assert(is_digit(digit_char(n % 10)));
    if n >= 10 {
        law_decimals_read_back(n / 10);
        assert(s.drop_last() =~= digits(n / 10));
        assert(s.last() == digit_char(n % 10));
    } else {
        assert(s.drop_last() =~= Seq::<char>::empty());
        assert(number_value(s.drop_last()) == 0);
    }
}

/// A signed number in decimal reads back as the number.
pub proof fn law_signed_decimals_read_back(n: int)
    requires
        i64::MIN <= n <= i64::MAX,
    ensures
        signed_value(signed_digits(n)) == Some(n),
{
    let s = signed_digits(n);
    if n < 0 {
        law_decimals_read_back((-n) as nat);
        assert(s.drop_first() =~= digits((-n) as nat));
    } else {
        law_decimals_read_back(n as nat);
        assert(is_digit(s[0]));
        assert(strip_plus(s) == s);
    }
}

/// Splitting undoes joining: texts without the separator come back as they were.
pub proof fn law_splitting_undoes_joining(parts: Seq<Seq<char>>, c: char)
    requires
        parts.len() > 0,
        forall|i: int| 0 <= i < parts.len() ==> !(#[trigger] parts[i]).contains(c),
    ensures
        pieces(joined(parts, seq![c]), c) == parts,
    decreases parts.len(),
{
    if parts.len() == 1 {
        lemma_unsplit(parts[0], c);
        assert(parts =~= seq![parts[0]]);
    } else {
        let front = parts.drop_last();
        assert forall|i: int| 0 <= i < front.len() implies !(#[trigger] front[i]).contains(c) by {
            assert(front[i] == parts[i]);
        }
        law_splitting_undoes_joining(front, c);
        lemma_unsplit(parts.last(), c);
        lemma_pieces_of_both(joined(front, seq![c]), parts.last(), c);
        assert(front + seq![parts.last()] =~= parts);
    }
}

proof fn lemma_unsplit(s: Seq<char>, c: char)
    requires
        !s.contains(c),
    ensures
        first_index(s, c) == s.len(),
        pieces(s, c) == seq![s],
    decreases s.len(),
{
    if s.len() > 0 {
        assert(s.contains(s[0]));
        let rest = s.drop_first();
        assert(!rest.contains(c)) by {
            if rest.contains(c) {
                let i = rest.index_of(c);
                assert(s[i + 1] == c);
            }
        }
        lemma_unsplit(rest, c);
    }
}

proof fn lemma_index_in_both(a: Seq<char>, b: Seq<char>, c: char)
    ensures
        first_index(a, c) < a.len() ==> first_index(a + seq![c] + b, c) == first_index(a, c),
        first_index(a, c) >= a.len() ==> first_index(a + seq![c] + b, c) == a.len(),
        0 <= first_index(a, c) <= a.len(),
    decreases a.len(),
{
    let both = a + seq![c] + b;
    if a.len() > 0 && a[0] != c {
        lemma_index_in_both(a.drop_first(), b, c);
        assert(both.drop_first() =~= a.drop_first() + seq![c] + b);
        assert(both[0] == a[0]);
    } else {
        assert(both[0] == c);
    }
}

proof fn lemma_pieces_of_both(a: Seq<char>, b: Seq<char>, c: char)
    ensures
        pieces(a + seq![c] + b, c) == pieces(a, c) + pieces(b, c),
    decreases a.len(),
{
    let both = a + seq![c] + b;
    lemma_index_in_both(a, b, c);
    let i = first_index(a, c);
    if i < a.len() {
        let rest = a.skip(i + 1);
        lemma_pieces_of_both(rest, b, c);
        assert(both.skip(i + 1) =~= rest + seq![c] + b);
        assert(both.take(i) =~= a.take(i));
        assert(pieces(both, c) =~= pieces(a, c) + pieces(b, c));
    } else {
        assert(both.skip(i + 1) =~= b);
        assert(both.take(i) =~= a);
        assert(pieces(both, c) =~= pieces(a, c) + pieces(b, c));
    }
}

/// A line ends at a line feed and is the first of the lines; without one, a text that
/// is not empty is one line.
pub proof fn law_lines_end_at_line_feeds(line: Seq<char>, rest: Seq<char>)
    requires
        !line.contains('\n'),
        line.len() > 0 ==> line.last() != '\r',
    ensures
        lines_of(line + seq!['\n'] + rest) == seq![line] + lines_of(rest),
        lines_of(line + seq!['\r', '\n'] + rest) == seq![line] + lines_of(rest),
        line.len() > 0 ==> lines_of(line) == seq![line],
        lines_of(Seq::<char>::empty()).len() == 0,
{
    lemma_unsplit(line, '\n');
    lemma_index_in_both(line, rest, '\n');
    let s = line + seq!['\n'] + rest;
    assert(s.take(line.len() as int) =~= line);
    assert(s.skip(line.len() as int + 1) =~= rest);
    let marked = line.push('\r');
    assert(!marked.contains('\n')) by {
        if marked.contains('\n') {
            let i = marked.index_of('\n');
            assert(line[i] == '\n');
        }
    }
    lemma_unsplit(marked, '\n');
    lemma_index_in_both(marked, rest, '\n');
    let t = line + seq!['\r', '\n'] + rest;
    assert(t =~= marked + seq!['\n'] + rest);
    assert(t.take(marked.len() as int) =~= marked);
    assert(t.skip(marked.len() as int + 1) =~= rest);
    assert(marked.drop_last() =~= line);
}

/// Joined texts stand one behind the other with the separator between neighbours, and
/// nothing around them.
pub proof fn law_joined_texts_follow_each_other(parts: Seq<Seq<char>>, last: Seq<char>, sep: Seq<char>)
    ensures
        joined(Seq::<Seq<char>>::empty(), sep).len() == 0,
        joined(seq![last], sep) == last,
        parts.len() > 0 ==> joined(parts.push(last), sep) == joined(parts, sep) + sep + last,
{
    if parts.len() > 0 {
        assert(parts.push(last).drop_last() =~= parts);
    }
}

/// Padding brings a text to a width and keeps the text; one that is as wide stays.
pub proof fn law_padding_keeps_the_text(s: Seq<char>, fill: char, width: nat)
    ensures
        s.len() >= width ==> padded_right(s, width) == s && padded_left(s, fill, width) == s,
        s.len() < width ==> {
            let (right, left) = (padded_right(s, width), padded_left(s, fill, width));
            &&& right.len() == width && left.len() == width
            &&& right.take(s.len() as int) == s && left.skip(width - s.len()) == s
            &&& forall|i: int| s.len() <= i < width ==> #[trigger] right[i] == ' '
            &&& forall|i: int| 0 <= i < width - s.len() ==> #[trigger] left[i] == fill
        },
{
    if s.len() < width {
        assert(padded_right(s, width).take(s.len() as int) =~= s);
        assert(padded_left(s, fill, width).skip(width - s.len()) =~= s);
    }
}

/// Words are told apart by white space: a text without any is one word, and what comes
/// before white space is the first.
pub proof fn law_words_end_at_white_space(word: Seq<char>, space: char, rest: Seq<char>)
    requires
        word.len() > 0,
        forall|i: int| 0 <= i < word.len() ==> !is_space(#[trigger] word[i]),
        is_space(space),
    ensures
        words_of(word) == seq![word],
        words_of(seq![space] + rest) == words_of(rest),
        words_of(word + seq![space] + rest) == seq![word] + words_of(rest),
{
    lemma_word_then(word, seq![]);
    assert(word + Seq::<char>::empty() =~= word);
    assert(words_of(Seq::<char>::empty()) =~= seq![]);
    assert(seq![word] + Seq::<Seq<char>>::empty() =~= seq![word]);
    let spaced = seq![space] + rest;
    assert(spaced.drop_first() =~= rest);
    assert(spaced.skip(space_run(spaced)) =~= rest.skip(space_run(rest))) by {
        lemma_space_run(rest);
    }
    lemma_space_run(rest);
    assert(words_of(spaced) == words_of(rest));
    lemma_word_then(word, spaced);
    assert(word + spaced =~= word + seq![space] + rest);
}

proof fn lemma_word_then(word: Seq<char>, rest: Seq<char>)
    requires
        word.len() > 0,
        forall|i: int| 0 <= i < word.len() ==> !is_space(#[trigger] word[i]),
        rest.len() > 0 ==> is_space(rest[0]),
    ensures
        words_of(word + rest) == seq![word] + words_of(rest),
{
    let s = word + rest;
    assert(s[0] == word[0]);
    assert(space_run(s) == 0);
    assert(s.skip(0) =~= s);
    lemma_word_run_then(word, rest);
    assert(s.take(word.len() as int) =~= word);
    assert(s.skip(word.len() as int) =~= rest);
}

proof fn lemma_word_run_then(word: Seq<char>, rest: Seq<char>)
    requires
        forall|i: int| 0 <= i < word.len() ==> !is_space(#[trigger] word[i]),
        rest.len() > 0 ==> is_space(rest[0]),
    ensures
        word_run(word + rest) == word.len(),
    decreases word.len(),
{
    let s = word + rest;
    if word.len() > 0 {
        assert(s[0] == word[0]);
        let w = word.drop_first();
        assert forall|i: int| 0 <= i < w.len() implies !is_space(#[trigger] w[i]) by {
            assert(w[i] == word[i + 1]);
        }
        lemma_word_run_then(w, rest);
        assert(s.drop_first() =~= w + rest);
    } else {
        assert(s =~= rest);
    }
}

/// Replacing a character leaves the others where they are, and puts the other text in
/// place of each one that is replaced.
pub proof fn law_replacing_goes_through_the_text(a: Seq<char>, b: Seq<char>, c: char, with: Seq<char>)
    ensures
        replaced(seq![c], c, with) == with,
        !a.contains(c) ==> replaced(a, c, with) == a,
        replaced(a + b, c, with) == replaced(a, c, with) + replaced(b, c, with),
{
    reveal_with_fuel(replaced, 2);
    assert(seq![c].drop_last() =~= Seq::<char>::empty());
    assert(Seq::<char>::empty() + with =~= with);
    assert(replaced(seq![c], c, with) =~= with);
    lemma_not_replaced(a, c, with);
    lemma_replaced_both(a, b, c, with);
}

proof fn lemma_not_replaced(a: Seq<char>, c: char, with: Seq<char>)
    ensures
        !a.contains(c) ==> replaced(a, c, with) == a,
    decreases a.len(),
{
    if !a.contains(c) && a.len() > 0 {
        let rest = a.drop_last();
        assert(!rest.contains(c)) by {
            if rest.contains(c) {
                assert(a[rest.index_of(c)] == c);
            }
        }
        lemma_not_replaced(rest, c, with);
        assert(a.contains(a.last()));
        assert(replaced(a, c, with) =~= a);
    } else if a.len() == 0 {
        assert(replaced(a, c, with) =~= a);
    }
}

proof fn lemma_replaced_both(a: Seq<char>, b: Seq<char>, c: char, with: Seq<char>)
    ensures
        replaced(a + b, c, with) == replaced(a, c, with) + replaced(b, c, with),
    decreases b.len(),
{
    if b.len() == 0 {
        assert(a + b =~= a);
        assert(replaced(a, c, with) + replaced(b, c, with) =~= replaced(a, c, with));
    } else {
        lemma_replaced_both(a, b.drop_last(), c, with);
        assert((a + b).drop_last() =~= a + b.drop_last());
        assert((a + b).last() == b.last());
        assert(replaced(a + b, c, with) =~= replaced(a, c, with) + replaced(b, c, with));
    }
}

/// A text is cut at each separator, and, where only so many pieces are asked for, at
/// the first ones; what is left is the last piece.
pub proof fn law_texts_are_cut_at_the_first_separators(
    a: Seq<char>,
    b: Seq<char>,
    c: char,
    n: nat,
)
    requires
        !a.contains(c),
    ensures
        pieces(a, c) == seq![a],
        pieces(a + seq![c] + b, c) == seq![a] + pieces(b, c),
        n >= 1 ==> pieces_n(a, c, n) == seq![a],
        n >= 2 ==> pieces_n(a + seq![c] + b, c, n) == seq![a] + pieces_n(b, c, (n - 1) as nat),
        pieces_n(b, c, 1) == seq![b],
{
    lemma_unsplit(a, c);
    lemma_pieces_of_both(a, b, c);
    lemma_index_in_both(a, b, c);
    let both = a + seq![c] + b;
    assert(both.take(a.len() as int) =~= a);
    assert(both.skip(a.len() as int + 1) =~= b);
}

/// Whether `pat` is what `s` holds from place `k` on, as far as it goes.
pub open spec fn reads_as(s: Seq<char>, pat: Seq<char>, k: int) -> bool {
    s.subrange(k, k + pat.len()) == pat
}

/// What is found is the first place where the text stands as it is looked for; nothing
/// is found only where it stands nowhere.
pub proof fn law_the_first_place_is_found(s: Seq<char>, pat: Seq<char>)
    ensures
        match find_from(s, pat, 0) {
            Some(i) => 0 <= i && i + pat.len() <= s.len() && s.subrange(i, i + pat.len()) == pat
                && forall|k: int| 0 <= k < i ==> !(#[trigger] reads_as(s, pat, k)),
            None => forall|k: int|
                0 <= k && k + pat.len() <= s.len() ==> !(#[trigger] reads_as(s, pat, k)),
        },
{
    lemma_find_first(s, pat, 0);
}

proof fn lemma_find_first(s: Seq<char>, pat: Seq<char>, at: int)
    requires
        0 <= at,
    ensures
        match find_from(s, pat, at) {
            Some(i) => at <= i && i + pat.len() <= s.len() && s.subrange(i, i + pat.len()) == pat
                && forall|k: int| at <= k < i ==> !(#[trigger] reads_as(s, pat, k)),
            None => forall|k: int|
                at <= k && k + pat.len() <= s.len() ==> !(#[trigger] reads_as(s, pat, k)),
        },
    decreases s.len() + 1 - at,
{
    if at + pat.len() <= s.len() && !occurs_at(s, pat, at) {
        lemma_find_first(s, pat, at + 1);
    }
}

/// A number that is not too large reads back from its digits.
pub proof fn law_unsigned_numbers_read_back(n: nat, max: nat)
    ensures
        unsigned_value(digits(n), max) == if n <= max {
            Some(n)
        } else {
            None
        },
        forall|i: int|
            0 <= i < digits(n).len() ==> '0' <= #[trigger] digits(n)[i] && digits(n)[i] <= '9',
        digits(n).len() > 0,
{
    law_decimals_read_back(n);
    assert(is_digit(digits(n)[0]));
    assert forall|i: int| 0 <= i < digits(n).len() implies '0' <= #[trigger] digits(n)[i]
        && digits(n)[i] <= '9' by {
        assert(is_digit(digits(n)[i]));
    }
}

/// A text is cut at the first separator, which belongs to neither part; a text without
/// one is not cut.
pub proof fn law_cutting_takes_the_separator_out(a: Seq<char>, b: Seq<char>, c: char)
    requires
        !a.contains(c),
    ensures
        cut(a + seq![c] + b, c) == Some((a, b)),
        cut(a, c) is None,
{
    lemma_unsplit(a, c);
    lemma_index_in_both(a, b, c);
    let both = a + seq![c] + b;
    assert(both.take(a.len() as int) =~= a);
    assert(both.skip(a.len() as int + 1) =~= b);
}

/// A beginning is taken off where the text has it, and the last character where there is
/// one.
pub proof fn law_beginnings_and_ends_are_taken_off(s: Seq<char>, head: Seq<char>, c: char)
    ensures
        without_prefix(head + s, head) == Some(s),
        !head.is_prefix_of(s) ==> without_prefix(s, head) is None,
        without_last(s.push(c)) == s,
        without_last(Seq::empty()).len() == 0,
{
    let both = head + s;
    assert(both.take(head.len() as int) =~= head);
    assert(both.subrange(0, head.len() as int) =~= head);
    assert(both.skip(head.len() as int) =~= s);
    assert(s.push(c).drop_last() =~= s);
}

} // verus!
