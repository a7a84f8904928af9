use vstd::prelude::*;

use crate::text::{lemma_split_on_nonempty, split_on, string_views};

verus! {

/// Which quoting context the tokenizer is in. Having a single mode makes
/// "inside single quotes and inside double quotes at once" unrepresentable.
#[derive(Clone, Copy, PartialEq, Eq, Structural, Debug)]
pub enum Mode {
    Plain,
    Single,
    Double,
}

/// What the tokenizer does with the `"` characters that open and close a
/// double-quoted run: drop them (the default) or keep them in the token.
#[derive(Clone, Copy, PartialEq, Eq, Structural, Debug)]
pub enum DoubleQuotes {
    Strip,
    Keep,
}

/// The tokenizer's state between two characters.
pub struct ScanState {
    pub mode: Mode,
    pub escape: bool,
    pub buf: Seq<char>,
    pub tokens: Seq<Seq<char>>,
}

pub open spec fn initial_state() -> ScanState {
    ScanState { mode: Mode::Plain, escape: false, buf: Seq::empty(), tokens: Seq::empty() }
}

/// Append `c` to the token being built and clear a pending escape.
pub open spec fn take_char(st: ScanState, c: char) -> ScanState {
    ScanState { escape: false, buf: st.buf.push(c), ..st }
}

/// The effect of one input character on the tokenizer's state.
pub open spec fn step(st: ScanState, c: char, style: DoubleQuotes) -> ScanState {
    if c == '\'' {
        match st.mode {
            Mode::Single => ScanState { mode: Mode::Plain, ..st },
            Mode::Double => take_char(st, c),
            Mode::Plain => if st.escape {
                take_char(st, c)
            } else {
                ScanState { mode: Mode::Single, ..st }
            },
        }
    } else if c == '"' {
        match st.mode {
            Mode::Single => take_char(st, c),
            Mode::Plain if st.escape => take_char(st, c),
            _ => {
                let mode = if st.mode == Mode::Double { Mode::Plain } else { Mode::Double };
                let buf = if style == DoubleQuotes::Keep { st.buf.push(c) } else { st.buf };
                ScanState { mode, buf, ..st }
            },
        }
    } else if c == '\\' {
        if st.mode == Mode::Single || st.escape {
            take_char(st, c)
        } else {
            ScanState { escape: true, ..st }
        }
    } else if c == ' ' && st.mode == Mode::Plain && !st.escape {
        let tokens = if st.buf.len() > 0 { st.tokens.push(st.buf) } else { st.tokens };
        ScanState { buf: Seq::empty(), tokens, ..st }
    } else {
        take_char(st, c)
    }
}

/// The state after reading all of `s`, left to right.
pub open spec fn scan(s: Seq<char>, style: DoubleQuotes) -> ScanState
    decreases s.len(),
{
    if s.len() == 0 {
        initial_state()
    } else {
        step(scan(s.drop_last(), style), s.last(), style)
    }
}

/// The tokens of `s`: those completed during the scan, then whatever is left
/// in the buffer at the end of input, open quotes notwithstanding.
pub open spec fn tokens_of(s: Seq<char>, style: DoubleQuotes) -> Seq<Seq<char>> {
    let st = scan(s, style);
    if st.buf.len() > 0 {
        st.tokens.push(st.buf)
    } else {
        st.tokens
    }
}

/// `ws` without its empty elements.
pub open spec fn drop_empty(ws: Seq<Seq<char>>) -> Seq<Seq<char>>
    decreases ws.len(),
{
    if ws.len() == 0 {
        ws
    } else {
        let r = drop_empty(ws.drop_last());
        if ws.last().len() > 0 {
            r.push(ws.last())
        } else {
            r
        }
    }
}

/// The space-separated words of `s`.
pub open spec fn words(s: Seq<char>) -> Seq<Seq<char>> {
    drop_empty(split_on(s, ' '))
}

/// `s` holds no quote and no backslash.
pub open spec fn is_unquoted(s: Seq<char>) -> bool {
    forall|i: int| 0 <= i < s.len() ==> s[i] != '\'' && s[i] != '"' && s[i] != '\\'
}

proof fn lemma_scan_tokens_nonempty(s: Seq<char>, style: DoubleQuotes)
    ensures
        forall|k: int|
            0 <= k < scan(s, style).tokens.len() ==> #[trigger] scan(s, style).tokens[k].len() > 0,
    decreases s.len(),
{
    if s.len() > 0 {
        lemma_scan_tokens_nonempty(s.drop_last(), style);
    }
}

/// No token is ever empty, whatever the input: runs of spaces, empty quotes
/// and a trailing separator add no token.
pub proof fn lemma_tokens_nonempty(s: Seq<char>, style: DoubleQuotes)
    ensures
        forall|k: int|
            0 <= k < tokens_of(s, style).len() ==> #[trigger] tokens_of(s, style)[k].len() > 0,
{
    lemma_scan_tokens_nonempty(s, style);
}

proof fn lemma_scan_unquoted(s: Seq<char>, style: DoubleQuotes)
    requires
        is_unquoted(s),
    ensures
        scan(s, style).mode == Mode::Plain,
        !scan(s, style).escape,
        scan(s, style).tokens == drop_empty(split_on(s, ' ').drop_last()),
        scan(s, style).buf == split_on(s, ' ').last(),
    decreases s.len(),
{
    lemma_split_on_nonempty(s, ' ');
    if s.len() > 0 {
        let p = s.drop_last();
        assert(is_unquoted(p)) by {
            assert forall|i: int| 0 <= i < p.len() implies p[i] != '\'' && p[i] != '"' && p[i]
                != '\\' by {
                assert(p[i] == s[i]);
            }
        }
        assert(s.last() == s[s.len() - 1]);
        lemma_scan_unquoted(p, style);
        lemma_split_on_nonempty(p, ' ');
        let r = split_on(p, ' ');
        if s.last() == ' ' {
            assert(split_on(s, ' ').drop_last() =~= r);
        } else {
            assert(split_on(s, ' ').drop_last() =~= r.drop_last());
        }
    }
}

/// On input without quotes or backslashes, tokenizing is splitting at spaces
/// and leaving out the empty pieces.
pub proof fn lemma_unquoted_is_word_split(s: Seq<char>, style: DoubleQuotes)
    requires
        is_unquoted(s),
    ensures
        tokens_of(s, style) == words(s),
{
    lemma_scan_unquoted(s, style);
    lemma_split_on_nonempty(s, ' ');
}

/// The state after reading `t`, starting from `st`.
pub open spec fn run(st: ScanState, t: Seq<char>, style: DoubleQuotes) -> ScanState
    decreases t.len(),
{
    if t.len() == 0 {
        st
    } else {
        step(run(st, t.drop_last(), style), t.last(), style)
    }
}

proof fn lemma_scan_concat(s: Seq<char>, t: Seq<char>, style: DoubleQuotes)
    ensures
        scan(s + t, style) == run(scan(s, style), t, style),
    decreases t.len(),
{
    if t.len() == 0 {
        assert(s + t =~= s);
    } else {
        lemma_scan_concat(s, t.drop_last(), style);
        assert((s + t).drop_last() =~= s + t.drop_last());
        assert((s + t).last() == t.last());
    }
}

/// Reading a single character is one step from the initial state.
proof fn lemma_scan_one(c: char, style: DoubleQuotes)
    ensures
        scan(seq![c], style) == step(initial_state(), c, style),
{
    assert(seq![c].drop_last() =~= Seq::<char>::empty());
    assert(scan(Seq::<char>::empty(), style) == initial_state());
}

/// Reading `t` only extends the token being built when `t` holds nothing that
/// acts in the current mode: no closing quote, no backslash inside double
/// quotes, and outside quotes no quote, backslash or space.
proof fn lemma_run_literal(st: ScanState, t: Seq<char>, style: DoubleQuotes)
    requires
        !st.escape,
        forall|i: int|
            0 <= i < t.len() ==> match st.mode {
                Mode::Single => t[i] != '\'',
                Mode::Double => t[i] != '"' && t[i] != '\\',
                Mode::Plain => t[i] != '\'' && t[i] != '"' && t[i] != '\\' && t[i] != ' ',
            },
    ensures
        run(st, t, style) == (ScanState { buf: st.buf + t, ..st }),
    decreases t.len(),
{
    if t.len() == 0 {
        assert(st.buf + t =~= st.buf);
    } else {
        let p = t.drop_last();
        assert forall|i: int| 0 <= i < p.len() implies match st.mode {
            Mode::Single => p[i] != '\'',
            Mode::Double => p[i] != '"' && p[i] != '\\',
            Mode::Plain => p[i] != '\'' && p[i] != '"' && p[i] != '\\' && p[i] != ' ',
        } by {
            assert(p[i] == t[i]);
        }
        lemma_run_literal(st, p, style);
        assert(t.last() == t[t.len() - 1]);
        assert(st.buf + p.push(t.last()) =~= st.buf + t) by {
            assert(p.push(t.last()) =~= t);
        }
        assert((st.buf + p).push(t.last()) =~= st.buf + t);
    }
}

/// Single-quoted text is one token, taken character for character:
/// backslashes, double quotes and spaces in it mean nothing special.
pub proof fn lemma_single_quoted_verbatim(t: Seq<char>, style: DoubleQuotes)
    requires
        t.len() > 0,
        !t.contains('\''),
    ensures
        tokens_of(seq!['\''] + t + seq!['\''], style) == seq![t],
{
    let open = seq!['\''];
    lemma_scan_one('\'', style);
    lemma_scan_concat(open, t, style);
    let st = scan(open, style);
    assert forall|i: int| 0 <= i < t.len() implies t[i] != '\'' by {
        if t[i] == '\'' {
            assert(t.contains('\''));
        }
    }
    lemma_run_literal(st, t, style);
    assert(st.buf + t =~= t);
    let close = seq!['\''];
    lemma_scan_concat(open + t, close, style);
    let x = scan(open + t, style);
    assert(close.drop_last() =~= Seq::<char>::empty());
    assert(run(x, Seq::<char>::empty(), style) == x);
    assert(close.last() == '\'');
    assert(x.mode == Mode::Single && x.buf == t && x.tokens == Seq::<Seq<char>>::empty());
    assert(seq![t] =~= Seq::<Seq<char>>::empty().push(t));
}

/// A single quote left open at the end of input is no error: what follows
/// it is still the last token.
pub proof fn lemma_unterminated_single_quote(t: Seq<char>, style: DoubleQuotes)
    requires
        t.len() > 0,
        !t.contains('\''),
    ensures
        tokens_of(seq!['\''] + t, style) == seq![t],
{
    let open = seq!['\''];
    lemma_scan_one('\'', style);
    lemma_scan_concat(open, t, style);
    assert forall|i: int| 0 <= i < t.len() implies t[i] != '\'' by {
        if t[i] == '\'' {
            assert(t.contains('\''));
        }
    }
    lemma_run_literal(scan(open, style), t, style);
    assert(scan(open, style).buf + t =~= t);
    assert(seq![t] =~= Seq::<Seq<char>>::empty().push(t));
}

/// A double quote left open at the end of input is no error either: the
/// text after it, if it holds no further quote or backslash, is the last
/// token.
pub proof fn lemma_unterminated_double_quote(t: Seq<char>)
    requires
        t.len() > 0,
        !t.contains('"'),
        !t.contains('\\'),
    ensures
        tokens_of(seq!['"'] + t, DoubleQuotes::Strip) == seq![t],
{
    let style = DoubleQuotes::Strip;
    let open = seq!['"'];
    lemma_scan_one('"', style);
    lemma_scan_concat(open, t, style);
    assert forall|i: int| 0 <= i < t.len() implies t[i] != '"' && t[i] != '\\' by {
        if t[i] == '"' {
            assert(t.contains('"'));
        }
        if t[i] == '\\' {
            assert(t.contains('\\'));
        }
    }
    lemma_run_literal(scan(open, style), t, style);
    assert(scan(open, style).buf + t =~= t);
    assert(seq![t] =~= Seq::<Seq<char>>::empty().push(t));
}

/// Outside quotes, a backslash before a double quote makes it an ordinary
/// character of the word: `a\"b` is the one token `a"b`.
pub proof fn lemma_escaped_double_quote(a: Seq<char>, b: Seq<char>, style: DoubleQuotes)
    requires
        is_unquoted(a),
        is_unquoted(b),
        !a.contains(' '),
        !b.contains(' '),
    ensures
        tokens_of(a + seq!['\\', '"'] + b, style) == seq![a + seq!['"'] + b],
{
    assert forall|i: int| 0 <= i < a.len() implies a[i] != ' ' by {
        if a[i] == ' ' {
            assert(a.contains(' '));
        }
    }
    assert forall|i: int| 0 <= i < b.len() implies b[i] != ' ' by {
        if b[i] == ' ' {
            assert(b.contains(' '));
        }
    }
    assert(a =~= Seq::<char>::empty() + a);
    lemma_scan_concat(Seq::<char>::empty(), a, style);
    assert(scan(Seq::<char>::empty(), style) == initial_state());
    lemma_run_literal(initial_state(), a, style);
    assert(Seq::<char>::empty() + a =~= a);
    let mid = seq!['\\', '"'];
    lemma_scan_concat(a, mid, style);
    assert(mid.drop_last() =~= seq!['\\']);
    assert(seq!['\\'].drop_last() =~= Seq::<char>::empty());
    let sa = scan(a, style);
    assert(sa.buf =~= a);
    assert(run(sa, Seq::<char>::empty(), style) == sa);
    assert(run(sa, seq!['\\'], style) == (ScanState { escape: true, ..sa }));
    assert(mid.last() == '"');
    let st = scan(a + mid, style);
    assert(st == (ScanState { buf: a + seq!['"'], ..initial_state() })) by {
        assert(a.push('"') =~= a + seq!['"']);
    }
    lemma_scan_concat(a + mid, b, style);
    lemma_run_literal(st, b, style);
    assert(a + mid + b =~= a + seq!['\\', '"'] + b);
    assert(seq![a + seq!['"'] + b] =~= Seq::<Seq<char>>::empty().push(a + seq!['"'] + b));
}

/// Splits `param` into argument tokens, honouring single quotes, double
/// quotes and backslash escapes; double-quote delimiters are dropped.
pub fn parse_quotes(param: &str) -> (r: Vec<String>)
    ensures
        string_views(r@) == tokens_of(param@, DoubleQuotes::Strip),
        forall|k: int| 0 <= k < r@.len() ==> #[trigger] r@[k]@.len() > 0,
{
    parse_quotes_with(param, DoubleQuotes::Strip)
}

/// As `parse_quotes`, with the treatment of double-quote delimiters chosen
/// by `style`.
pub fn parse_quotes_with(param: &str, style: DoubleQuotes) -> (r: Vec<String>)
    ensures
        string_views(r@) == tokens_of(param@, style),
        forall|k: int| 0 <= k < r@.len() ==> #[trigger] r@[k]@.len() > 0,
{
    let n = param.unicode_len();
    let mut result: Vec<String> = Vec::new();
    let mut mode = Mode::Plain;
    let mut escape = false;
    let mut buf = String::new();
    let mut i: usize = 0;
    proof {
        assert(param@.take(0) =~= Seq::<char>::empty());
        assert(string_views(result@) =~= Seq::<Seq<char>>::empty());
    }
    while i < n
        invariant
            n == param@.len(),
            i <= n,
            scan(param@.take(i as int), style) == (ScanState {
                mode,
                escape,
                buf: buf@,
                tokens: string_views(result@),
            }),
        decreases n - i,
    {
        let ghost before = ScanState { mode, escape, buf: buf@, tokens: string_views(result@) };
        let c = param.get_char(i);
        let piece = param.substring_char(i, i + 1);
        assert(piece@ =~= seq![c]);
        if c == '\'' {
            match mode {
                Mode::Single => {
                    mode = Mode::Plain;
                },
                Mode::Double => {
                    buf.append(piece);
                    escape = false;
                },
                Mode::Plain => {
                    if escape {
                        buf.append(piece);
                        escape = false;
                    } else {
                        mode = Mode::Single;
                    }
                },
            }
        } else if c == '"' {
            if mode == Mode::Single || (mode == Mode::Plain && escape) {
                buf.append(piece);
                escape = false;
            } else {
                mode = if mode == Mode::Double { Mode::Plain } else { Mode::Double };
                if style == DoubleQuotes::Keep {
                    buf.append(piece);
                }
            }
        } else if c == '\\' {
            if mode == Mode::Single || escape {
                buf.append(piece);
                escape = false;
            } else {
                escape = true;
            }
        } else if c == ' ' && mode == Mode::Plain && !escape {
            if buf.unicode_len() > 0 {
                let done = buf;
                result.push(done);
                buf = String::new();
                assert(string_views(result@) =~= before.tokens.push(before.buf));
            } else {
                buf = String::new();
            }
        } else {
            buf.append(piece);
            escape = false;
        }
        proof {
            let t = param@.take(i + 1);
            assert(t.drop_last() =~= param@.take(i as int));
            assert(t.last() == c);
            assert(buf@ =~= step(before, c, style).buf);
            assert(string_views(result@) =~= step(before, c, style).tokens);
        }
        i = i + 1;
    }
    proof {
        assert(param@.take(n as int) =~= param@);
        lemma_scan_tokens_nonempty(param@, style);
    }
    if buf.unicode_len() > 0 {
        let ghost toks = string_views(result@);
        result.push(buf);
        assert(string_views(result@) =~= toks.push(scan(param@, style).buf));
    }
    proof {
        lemma_tokens_nonempty(param@, style);
        assert(string_views(result@) == tokens_of(param@, style));
        assert forall|k: int| 0 <= k < result@.len() implies #[trigger] result@[k]@.len() > 0 by {
            assert(string_views(result@)[k] == result@[k]@);
            assert(tokens_of(param@, style)[k].len() > 0);
        }
    }
    result
}

} // verus!
