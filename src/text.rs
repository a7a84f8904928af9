use vstd::prelude::*;

verus! {

/// `s` cut at every `sep`, empty pieces included (as `str::split` does).
pub open spec fn split_on(s: Seq<char>, sep: char) -> Seq<Seq<char>>
    decreases s.len(),
{
    if s.len() == 0 {
        seq![Seq::empty()]
    } else {
        let r = split_on(s.drop_last(), sep);
        if s.last() == sep {
            r.push(Seq::empty())
        } else {
            r.update(r.len() - 1, r.last().push(s.last()))
        }
    }
}

pub proof fn lemma_split_on_nonempty(s: Seq<char>, sep: char)
    ensures
        split_on(s, sep).len() >= 1,
    decreases s.len(),
{
    if s.len() > 0 {
        lemma_split_on_nonempty(s.drop_last(), sep);
    }
}

/// The words of `ts` with one space between each two.
pub open spec fn join_words(ts: Seq<Seq<char>>) -> Seq<char>
    decreases ts.len(),
{
    if ts.len() == 0 {
        Seq::empty()
    } else if ts.len() == 1 {
        ts[0]
    } else {
        join_words(ts.drop_last()) + seq![' '] + ts.last()
    }
}

pub open spec fn string_views(v: Seq<String>) -> Seq<Seq<char>> {
    v.map_values(|t: String| t@)
}

/// The characters Rust's `char::is_whitespace` accepts (Unicode White_Space).
pub open spec fn is_whitespace(c: char) -> bool {
    ('\t' <= c <= '\r') || c == ' ' || c == '\u{85}' || c == '\u{A0}' || c == '\u{1680}' || (
    '\u{2000}' <= c <= '\u{200A}') || c == '\u{2028}' || c == '\u{2029}' || c == '\u{202F}' || c
        == '\u{205F}' || c == '\u{3000}'
}

/// Whether `c` is whitespace.
pub fn is_whitespace_char(c: char) -> (r: bool)
    ensures
        r == is_whitespace(c),
{
    ('\t' <= c && c <= '\r') || c == ' ' || c == '\u{85}' || c == '\u{A0}' || c == '\u{1680}' || (
    '\u{2000}' <= c && c <= '\u{200A}') || c == '\u{2028}' || c == '\u{2029}' || c == '\u{202F}'
        || c == '\u{205F}' || c == '\u{3000}'
}

/// A word of `s` begins at `i`: `s[i]` is not whitespace and comes first or
/// after whitespace.
pub open spec fn starts_word(s: Seq<char>, i: int) -> bool {
    !is_whitespace(s[i]) && (i == 0 || is_whitespace(s[i - 1]))
}

/// The number of whitespace-separated words of `s`.
pub open spec fn word_count(s: Seq<char>) -> nat
    decreases s.len(),
{
    if s.len() == 0 {
        0
    } else {
        word_count(s.drop_last()) + if starts_word(s, s.len() - 1) {
            1nat
        } else {
            0nat
        }
    }
}

/// Counts the whitespace-separated words of `s`.
pub fn count_words(s: &str) -> (r: usize)
    ensures
        r == word_count(s@),
{
    let n = s.unicode_len();
    let mut count: usize = 0;
    let mut after_space = true;
    let mut i: usize = 0;
    assert(s@.take(0) =~= Seq::<char>::empty());
    while i < n
        invariant
            n == s@.len(),
            i <= n,
            count <= i,
            count == word_count(s@.take(i as int)),
            after_space == (i == 0 || is_whitespace(s@[i - 1])),
        decreases n - i,
    {
        let c = s.get_char(i);
        let ws = is_whitespace_char(c);
        let ghost t = s@.take(i + 1);
        assert(t.drop_last() =~= s@.take(i as int));
        assert(t[i as int] == c);
        if i > 0 {
            assert(t[i - 1] == s@[i - 1]);
        }
        if !ws && after_space {
            count = count + 1;
        }
        after_space = ws;
        i = i + 1;
    }
    assert(s@.take(n as int) =~= s@);
    count
}

/// Character-wise equality of two strings.
pub fn str_eq(a: &str, b: &str) -> (r: bool)
    ensures
        r == (a@ == b@),
{
    let n = a.unicode_len();
    if n != b.unicode_len() {
        return false;
    }
    let mut i: usize = 0;
    while i < n
        invariant
            n == a@.len(),
            n == b@.len(),
            i <= n,
            forall|k: int| 0 <= k < i ==> a@[k] == b@[k],
        decreases n - i,
    {
        if a.get_char(i) != b.get_char(i) {
            return false;
        }
        i = i + 1;
    }
    assert(a@ =~= b@);
    true
}

/// Joins `ts` with single spaces.
pub fn join_with_spaces(ts: &Vec<String>) -> (r: String)
    ensures
        r@ == join_words(string_views(ts@)),
{
    let mut out = String::new();
    let mut i: usize = 0;
    proof {
        assert(string_views(ts@).take(0) =~= Seq::<Seq<char>>::empty());
    }
    while i < ts.len()
        invariant
            i <= ts@.len(),
            out@ == join_words(string_views(ts@).take(i as int)),
        decreases ts@.len() - i,
    {
        let ghost prev = string_views(ts@).take(i as int);
        let ghost next = string_views(ts@).take(i + 1);
        assert(next.drop_last() =~= prev);
        assert(next.last() == ts@[i as int]@);
        if i > 0 {
            out.append(" ");
            out.append(ts[i].as_str());
            assert(out@ =~= join_words(prev) + seq![' '] + ts@[i as int]@) by {
                reveal_strlit(" ");
            }
        } else {
            out.append(ts[i].as_str());
            assert(out@ =~= next[0]);
        }
        i = i + 1;
    }
    assert(string_views(ts@).take(ts@.len() as int) =~= string_views(ts@));
    out
}

/// Splits `s` at every `sep`, keeping empty pieces.
pub fn split_at_char(s: &str, sep: char) -> (r: Vec<String>)
    ensures
        string_views(r@) == split_on(s@, sep),
{
    let n = s.unicode_len();
    let mut pieces: Vec<String> = Vec::new();
    let mut start: usize = 0;
    let mut i: usize = 0;
    proof {
        assert(s@.take(0) =~= Seq::<char>::empty());
    }
    while i < n
        invariant
            n == s@.len(),
            start <= i <= n,
            string_views(pieces@).push(s@.subrange(start as int, i as int)) == split_on(
                s@.take(i as int),
                sep,
            ),
        decreases n - i,
    {
        let ghost t = s@.take(i + 1);
        assert(t.drop_last() =~= s@.take(i as int));
        assert(t.last() == s@[i as int]);
        proof {
            lemma_split_on_nonempty(s@.take(i as int), sep);
        }
        let c = s.get_char(i);
        let ghost r = split_on(s@.take(i as int), sep);
        if c == sep {
            assert(s@.subrange(i + 1, i + 1) =~= Seq::<char>::empty());
            let piece = s.substring_char(start, i);
            let ghost before = string_views(pieces@);
            pieces.push(piece.to_owned());
            assert(string_views(pieces@) =~= before.push(piece@));
            start = i + 1;
            assert(string_views(pieces@).push(s@.subrange(start as int, i + 1)) =~= split_on(
                t,
                sep,
            ));
        } else {
            assert(s@.subrange(start as int, i + 1) =~= s@.subrange(start as int, i as int).push(c));
            assert(r.last() == s@.subrange(start as int, i as int));
            assert(string_views(pieces@).push(s@.subrange(start as int, i + 1)) =~= split_on(
                t,
                sep,
            ));
        }
        i = i + 1;
    }
    let last = s.substring_char(start, n);
    let ghost before = string_views(pieces@);
    pieces.push(last.to_owned());
    assert(s@.take(n as int) =~= s@);
    assert(string_views(pieces@) =~= before.push(last@));
    pieces
}

} // verus!
