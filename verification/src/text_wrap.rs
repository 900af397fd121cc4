//! Line breaking for the shell's text blocks: the text is cut into its
//! lines, and each line is filled greedily with whole words up to a number
//! of characters.
use crate::text::{flush_word, is_ws, split_whitespace, split_ws, split_ws_from, views_of};
use vstd::prelude::*;
use vstd::string::*;

verus! {

/// `p` without one trailing carriage return.
pub open spec fn strip_cr(p: Seq<char>) -> Seq<char> {
    if p.len() > 0 && p.last() == '\r' {
        p.drop_last()
    } else {
        p
    }
}

/// The lines of `s` from position `i` on, the current one starting at
/// `start`: pieces between line feeds, each without a trailing carriage
/// return; a line feed at the very end starts no further line.
pub open spec fn lines_from(s: Seq<char>, i: int, start: int) -> Seq<Seq<char>>
    decreases s.len() - i,
{
    if i >= s.len() {
        if start < s.len() {
            seq![strip_cr(s.subrange(start, s.len() as int))]
        } else {
            Seq::empty()
        }
    } else if s[i] == '\n' {
        seq![strip_cr(s.subrange(start, i))] + lines_from(s, i + 1, i + 1)
    } else {
        lines_from(s, i + 1, start)
    }
}

/// The lines of `s`, as `str::lines` gives them.
pub open spec fn lines_spec(s: Seq<char>) -> Seq<Seq<char>> {
    lines_from(s, 0, 0)
}

/// The lines that greedy filling makes of `words`, with `cur` the line
/// being filled: a word joins the current line (after one space) unless
/// that would pass `max` characters, in which case the current line is
/// done and the word starts the next. A word never waits behind an empty
/// line, so a longer word gets a line of its own.
pub open spec fn fill_from(words: Seq<Seq<char>>, max: int, cur: Seq<char>) -> Seq<Seq<char>>
    decreases words.len(),
{
    if words.len() == 0 {
        seq![cur]
    } else {
        let w = words[0];
        if cur.len() > 0 && cur.len() + 1 + w.len() > max {
            seq![cur] + fill_from(words.skip(1), max, w)
        } else {
            fill_from(words.skip(1), max, if cur.len() == 0 { w } else { cur + seq![' '] + w })
        }
    }
}

/// The filled lines of one line of text (one empty line when it has no
/// words).
pub open spec fn fill_line(line: Seq<char>, max: int) -> Seq<Seq<char>> {
    fill_from(split_ws(line), max, Seq::empty())
}

/// The filled lines of several lines of text, in order.
pub open spec fn fill_lines(lines: Seq<Seq<char>>, max: int) -> Seq<Seq<char>>
    decreases lines.len(),
{
    if lines.len() == 0 {
        Seq::empty()
    } else {
        fill_lines(lines.drop_last(), max) + fill_line(lines.last(), max)
    }
}

/// The text of a block broken into lines of at most `max` characters
/// (where words allow).
pub open spec fn wrap_text_spec(s: Seq<char>, max: int) -> Seq<Seq<char>> {
    fill_lines(lines_spec(s), max)
}

proof fn lemma_fill_from_bounded(all: Seq<Seq<char>>, words: Seq<Seq<char>>, max: int, cur: Seq<char>)
    requires
        max >= 0,
        forall|i: int| 0 <= i < words.len() ==> all.contains(#[trigger] words[i]),
        cur.len() <= max || all.contains(cur),
    ensures
        forall|k: int|
            0 <= k < fill_from(words, max, cur).len() ==> (#[trigger] fill_from(words, max, cur)[k]).len() <= max
                || all.contains(fill_from(words, max, cur)[k]),
    decreases words.len(),
{
    if words.len() > 0 {
        let w = words[0];
        assert(all.contains(words[0]));
        assert forall|i: int| 0 <= i < words.skip(1).len() implies all.contains(#[trigger] words.skip(1)[i]) by {
            assert(words.skip(1)[i] == words[i + 1]);
        }
        if cur.len() > 0 && cur.len() + 1 + w.len() > max {
            lemma_fill_from_bounded(all, words.skip(1), max, w);
            let rest = fill_from(words.skip(1), max, w);
            assert(fill_from(words, max, cur) == seq![cur] + rest);
            assert forall|k: int| 0 <= k < fill_from(words, max, cur).len() implies (#[trigger] fill_from(
                words,
                max,
                cur,
            )[k]).len() <= max || all.contains(fill_from(words, max, cur)[k]) by {
                if k > 0 {
                    assert(fill_from(words, max, cur)[k] == rest[k - 1]);
                }
            }
        } else {
            let next = if cur.len() == 0 { w } else { cur + seq![' '] + w };
            assert(next.len() <= max || all.contains(next));
            lemma_fill_from_bounded(all, words.skip(1), max, next);
            assert(fill_from(words, max, cur) == fill_from(words.skip(1), max, next));
        }
    } else {
        assert(fill_from(words, max, cur) == seq![cur]);
        assert forall|k: int| 0 <= k < fill_from(words, max, cur).len() implies (#[trigger] fill_from(
            words,
            max,
            cur,
        )[k]).len() <= max || all.contains(fill_from(words, max, cur)[k]) by {
            assert(fill_from(words, max, cur)[k] == cur);
        }
    }
}

/// A filled line is longer than the limit only when it is a single word
/// of the line of text.
pub proof fn lemma_filled_lines_fit(line: Seq<char>, max: int)
    requires
        max >= 0,
    ensures
        forall|k: int|
            0 <= k < fill_line(line, max).len() ==> (#[trigger] fill_line(line, max)[k]).len() <= max
                || split_ws(line).contains(fill_line(line, max)[k]),
{
    let words = split_ws(line);
    lemma_fill_from_bounded(words, words, max, Seq::empty());
}

/// Every line of a wrapped text fits the limit, unless it is a single word
/// of one of the text's lines.
pub proof fn lemma_wrapped_lines_fit(text: Seq<char>, max: int)
    requires
        max >= 0,
    ensures
        forall|k: int|
            0 <= k < wrap_text_spec(text, max).len() ==> (#[trigger] wrap_text_spec(text, max)[k]).len() <= max
                || exists|j: int|
                0 <= j < lines_spec(text).len() && split_ws(lines_spec(text)[j]).contains(wrap_text_spec(text, max)[k]),
{
    lemma_fill_lines_fit(lines_spec(text), max);
}

proof fn lemma_fill_lines_fit(ls: Seq<Seq<char>>, max: int)
    requires
        max >= 0,
    ensures
        forall|k: int|
            0 <= k < fill_lines(ls, max).len() ==> (#[trigger] fill_lines(ls, max)[k]).len() <= max || exists|j: int|
                0 <= j < ls.len() && split_ws(ls[j]).contains(fill_lines(ls, max)[k]),
    decreases ls.len(),
{
    if ls.len() > 0 {
        let front = ls.drop_last();
        lemma_fill_lines_fit(front, max);
        lemma_filled_lines_fit(ls.last(), max);
        let a = fill_lines(front, max);
        let b = fill_line(ls.last(), max);
        assert(fill_lines(ls, max) == a + b);
        assert forall|k: int| 0 <= k < fill_lines(ls, max).len() implies (#[trigger] fill_lines(ls, max)[k]).len()
            <= max || exists|j: int| 0 <= j < ls.len() && split_ws(ls[j]).contains(fill_lines(ls, max)[k]) by {
            if k < a.len() {
                assert(fill_lines(ls, max)[k] == a[k]);
                if !(a[k].len() <= max) {
                    let j = choose|j: int| 0 <= j < front.len() && split_ws(front[j]).contains(a[k]);
                    assert(ls[j] == front[j]);
                }
            } else {
                assert(fill_lines(ls, max)[k] == b[k - a.len()]);
                if !(b[k - a.len()].len() <= max) {
                    assert(ls[ls.len() - 1] == ls.last());
                }
            }
        }
    }
}

/// The words of several lines, line after line.
pub open spec fn words_in(lines: Seq<Seq<char>>) -> Seq<Seq<char>>
    decreases lines.len(),
{
    if lines.len() == 0 {
        Seq::empty()
    } else {
        words_in(lines.drop_last()) + split_ws(lines.last())
    }
}

/// A word: not empty, and without white space.
pub open spec fn is_word(w: Seq<char>) -> bool {
    w.len() > 0 && forall|i: int| 0 <= i < w.len() ==> !is_ws(#[trigger] w[i])
}

proof fn lemma_split_shift(p: Seq<char>, y: Seq<char>, j: int, cur: Seq<char>)
    requires
        0 <= j <= y.len(),
    ensures
        split_ws_from(p + y, p.len() + j, cur) == split_ws_from(y, j, cur),
    decreases y.len() - j,
{
    let s = p + y;
    if j < y.len() {
        assert(s[p.len() + j] == y[j]);
        if is_ws(y[j]) {
            lemma_split_shift(p, y, j + 1, seq![]);
        } else {
            lemma_split_shift(p, y, j + 1, cur.push(y[j]));
        }
    }
}

proof fn lemma_split_at_ws_from(x: Seq<char>, c: char, y: Seq<char>, i: int, cur: Seq<char>)
    requires
        is_ws(c),
        0 <= i <= x.len(),
    ensures
        split_ws_from(x + seq![c] + y, i, cur) == split_ws_from(x, i, cur) + split_ws(y),
    decreases x.len() - i,
{
    let s = x + seq![c] + y;
    if i < x.len() {
        assert(s[i] == x[i]);
        if is_ws(x[i]) {
            lemma_split_at_ws_from(x, c, y, i + 1, seq![]);
            assert(split_ws_from(s, i, cur) == flush_word(cur) + split_ws_from(s, i + 1, seq![]));
            assert(split_ws_from(x, i, cur) == flush_word(cur) + split_ws_from(x, i + 1, seq![]));
        } else {
            lemma_split_at_ws_from(x, c, y, i + 1, cur.push(x[i]));
        }
    } else {
        assert(s[x.len() as int] == c);
        lemma_split_shift(x + seq![c], y, 0, seq![]);
        assert((x + seq![c]).len() == x.len() + 1);
        assert(x + seq![c] + y == (x + seq![c]) + y);
    }
}

/// Splitting at a white-space character splits the words.
proof fn lemma_split_at_ws(x: Seq<char>, c: char, y: Seq<char>)
    requires
        is_ws(c),
    ensures
        split_ws(x + seq![c] + y) == split_ws(x) + split_ws(y),
{
    lemma_split_at_ws_from(x, c, y, 0, seq![]);
}

proof fn lemma_word_alone_from(w: Seq<char>, i: int)
    requires
        is_word(w),
        0 < i <= w.len(),
    ensures
        split_ws_from(w, i, w.take(i)) == seq![w],
    decreases w.len() - i,
{
    if i < w.len() {
        assert(!is_ws(w[i]));
        assert(w.take(i).push(w[i]) =~= w.take(i + 1));
        lemma_word_alone_from(w, i + 1);
    } else {
        assert(w.take(i) =~= w);
    }
}

/// A word is its own only word.
proof fn lemma_word_alone(w: Seq<char>)
    requires
        is_word(w),
    ensures
        split_ws(w) == seq![w],
{
    assert(!is_ws(w[0]));
    assert(seq![].push(w[0]) =~= w.take(1));
    lemma_word_alone_from(w, 1);
}

proof fn lemma_words_from(s: Seq<char>, i: int, cur: Seq<char>)
    requires
        forall|k: int| 0 <= k < cur.len() ==> !is_ws(#[trigger] cur[k]),
    ensures
        forall|k: int| 0 <= k < split_ws_from(s, i, cur).len() ==> is_word(#[trigger] split_ws_from(s, i, cur)[k]),
    decreases s.len() - i,
{
    if i >= s.len() || i < 0 {
        assert(split_ws_from(s, i, cur) == flush_word(cur));
        if cur.len() > 0 {
            assert(is_word(cur));
            assert(flush_word(cur) == seq![cur]);
            assert forall|k: int| 0 <= k < flush_word(cur).len() implies is_word(#[trigger] flush_word(cur)[k]) by {
                assert(flush_word(cur)[k] == cur);
            }
        } else {
            assert(flush_word(cur).len() == 0);
        }
    } else if is_ws(s[i]) {
        lemma_words_from(s, i + 1, seq![]);
        let a = flush_word(cur);
        let b = split_ws_from(s, i + 1, seq![]);
        assert(split_ws_from(s, i, cur) == a + b);
        if cur.len() > 0 {
            assert(is_word(cur));
        }
        assert forall|k: int| 0 <= k < (a + b).len() implies is_word(#[trigger] (a + b)[k]) by {
            if k >= a.len() {
                assert((a + b)[k] == b[k - a.len()]);
            } else {
                assert(a == seq![cur]);
                assert((a + b)[k] == cur);
            }
        }
    } else {
        let next = cur.push(s[i]);
        assert forall|k: int| 0 <= k < next.len() implies !is_ws(#[trigger] next[k]) by {
            if k < cur.len() {
                assert(next[k] == cur[k]);
            }
        }
        lemma_words_from(s, i + 1, next);
        assert(split_ws_from(s, i, cur) == split_ws_from(s, i + 1, next));
    }
}

/// The words a text splits into are words.
proof fn lemma_split_words(s: Seq<char>)
    ensures
        forall|k: int| 0 <= k < split_ws(s).len() ==> is_word(#[trigger] split_ws(s)[k]),
{
    lemma_words_from(s, 0, seq![]);
}

proof fn lemma_words_in_append(a: Seq<Seq<char>>, b: Seq<Seq<char>>)
    ensures
        words_in(a + b) == words_in(a) + words_in(b),
    decreases b.len(),
{
    if b.len() > 0 {
        lemma_words_in_append(a, b.drop_last());
        assert((a + b).drop_last() =~= a + b.drop_last());
        assert((a + b).last() == b.last());
    } else {
        assert(a + b =~= a);
    }
}

proof fn lemma_words_in_single(line: Seq<char>)
    ensures
        words_in(seq![line]) == split_ws(line),
{
    let one = seq![line];
    assert(one.drop_last() =~= Seq::<Seq<char>>::empty());
    assert(one.last() == line);
    assert(words_in(one) == words_in(one.drop_last()) + split_ws(one.last()));
    assert(Seq::<Seq<char>>::empty() + split_ws(line) =~= split_ws(line));
}

proof fn lemma_fill_from_words(words: Seq<Seq<char>>, max: int, cur: Seq<char>)
    requires
        forall|k: int| 0 <= k < words.len() ==> is_word(#[trigger] words[k]),
    ensures
        words_in(fill_from(words, max, cur)) == split_ws(cur) + words,
    decreases words.len(),
{
    if words.len() == 0 {
        lemma_words_in_single(cur);
        assert(split_ws(cur) + words =~= split_ws(cur));
    } else {
        let w = words[0];
        let rest = words.skip(1);
        assert(is_word(words[0]));
        assert forall|k: int| 0 <= k < rest.len() implies is_word(#[trigger] rest[k]) by {
            assert(rest[k] == words[k + 1]);
        }
        lemma_word_alone(w);
        assert(words =~= seq![w] + rest);
        if cur.len() > 0 && cur.len() + 1 + w.len() > max {
            lemma_fill_from_words(rest, max, w);
            lemma_words_in_append(seq![cur], fill_from(rest, max, w));
            lemma_words_in_single(cur);
        } else if cur.len() == 0 {
            lemma_fill_from_words(rest, max, w);
            assert(split_ws(cur) =~= Seq::<Seq<char>>::empty()) by {
                assert(cur =~= Seq::<char>::empty());
            }
        } else {
            let next = cur + seq![' '] + w;
            lemma_fill_from_words(rest, max, next);
            assert(is_ws(' '));
            lemma_split_at_ws(cur, ' ', w);
        }
    }
}

/// Filling keeps the words of a line of text, in order.
pub proof fn lemma_filled_line_keeps_words(line: Seq<char>, max: int)
    ensures
        words_in(fill_line(line, max)) == split_ws(line),
{
    lemma_split_words(line);
    lemma_fill_from_words(split_ws(line), max, Seq::empty());
    assert(split_ws(Seq::<char>::empty()) =~= Seq::<Seq<char>>::empty());
    assert(Seq::<Seq<char>>::empty() + split_ws(line) =~= split_ws(line));
}

/// Wrapping keeps the words of the text's lines, in order: reading the
/// wrapped lines one after another gives the same words.
pub proof fn lemma_wrapping_keeps_words(text: Seq<char>, max: int)
    ensures
        words_in(wrap_text_spec(text, max)) == words_in(lines_spec(text)),
{
    lemma_fill_lines_keeps_words(lines_spec(text), max);
}

proof fn lemma_fill_lines_keeps_words(ls: Seq<Seq<char>>, max: int)
    ensures
        words_in(fill_lines(ls, max)) == words_in(ls),
    decreases ls.len(),
{
    if ls.len() > 0 {
        lemma_fill_lines_keeps_words(ls.drop_last(), max);
        lemma_filled_line_keeps_words(ls.last(), max);
        lemma_words_in_append(fill_lines(ls.drop_last(), max), fill_line(ls.last(), max));
    }
}

proof fn lemma_strip_cr_words(p: Seq<char>)
    ensures
        split_ws(strip_cr(p)) == split_ws(p),
{
    if p.len() > 0 && p.last() == '\r' {
        let front = p.drop_last();
        assert(is_ws('\r'));
        lemma_split_at_ws(front, '\r', Seq::empty());
        assert(front + seq!['\r'] + Seq::<char>::empty() =~= p);
        assert(split_ws(Seq::<char>::empty()) =~= Seq::<Seq<char>>::empty());
        assert(split_ws(front) + Seq::<Seq<char>>::empty() =~= split_ws(front));
    }
}

proof fn lemma_lines_from_words(s: Seq<char>, i: int, start: int)
    requires
        0 <= start <= i <= s.len(),
    ensures
        words_in(lines_from(s, i, start)) == split_ws(s.subrange(start, s.len() as int)),
    decreases s.len() - i,
{
    if i >= s.len() {
        if start < s.len() {
            let piece = s.subrange(start, s.len() as int);
            lemma_words_in_single(strip_cr(piece));
            lemma_strip_cr_words(piece);
        } else {
            assert(s.subrange(start, s.len() as int) =~= Seq::<char>::empty());
            assert(split_ws(Seq::<char>::empty()) =~= Seq::<Seq<char>>::empty());
        }
    } else if s[i] == '\n' {
        let piece = s.subrange(start, i);
        let tail = s.subrange(i + 1, s.len() as int);
        lemma_lines_from_words(s, i + 1, i + 1);
        lemma_words_in_single(strip_cr(piece));
        lemma_strip_cr_words(piece);
        lemma_words_in_append(seq![strip_cr(piece)], lines_from(s, i + 1, i + 1));
        assert(is_ws('\n'));
        lemma_split_at_ws(piece, '\n', tail);
        assert(piece + seq!['\n'] + tail =~= s.subrange(start, s.len() as int));
    } else {
        lemma_lines_from_words(s, i + 1, start);
    }
}

/// Wrapping keeps the words of the text, in order: reading the wrapped
/// lines one after another gives the text's white-space separated words.
pub proof fn lemma_wrapped_text_keeps_words(text: Seq<char>, max: int)
    ensures
        words_in(wrap_text_spec(text, max)) == split_ws(text),
{
    lemma_wrapping_keeps_words(text, max);
    lemma_lines_from_words(text, 0, 0);
    assert(text.subrange(0, text.len() as int) =~= text);
}

pub open spec fn string_views(v: Seq<String>) -> Seq<Seq<char>> {
    v.map_values(|s: String| s@)
}

/// The piece of `s` from `start` to `end` without a trailing carriage return.
fn line_piece<'a>(s: &'a str, start: usize, end: usize) -> (r: &'a str)
    requires
        start <= end <= s@.len(),
    ensures
        r@ == strip_cr(s@.subrange(start as int, end as int)),
{
    if start < end && s.get_char(end - 1) == '\r' {
        let r = s.substring_char(start, end - 1);
        assert(r@ =~= s@.subrange(start as int, end as int).drop_last());
        r
    } else {
        s.substring_char(start, end)
    }
}

/// The lines of `s`.
pub fn split_lines<'a>(s: &'a str) -> (r: Vec<&'a str>)
    ensures
        views_of(r@) == lines_spec(s@),
{
    let n = s.unicode_len();
    let mut out: Vec<&'a str> = Vec::new();
    let mut start: usize = 0;
    let mut i: usize = 0;
    assert(views_of(out@) =~= Seq::<Seq<char>>::empty());
    while i < n
        invariant
            n == s@.len(),
            start <= i <= n,
            views_of(out@) + lines_from(s@, i as int, start as int) == lines_spec(s@),
        decreases n - i,
    {
        if s.get_char(i) == '\n' {
            let ghost before = views_of(out@);
            let piece = line_piece(s, start, i);
            out.push(piece);
            assert(views_of(out@) =~= before + seq![piece@]);
            i = i + 1;
            start = i;
        } else {
            i = i + 1;
        }
    }
    if start < n {
        let ghost before = views_of(out@);
        let piece = line_piece(s, start, n);
        out.push(piece);
        assert(views_of(out@) =~= before + seq![piece@]);
    } else {
        assert(views_of(out@) + Seq::<Seq<char>>::empty() =~= views_of(out@));
    }
    out
}

/// The filled lines of one line of text, at most `max_chars` characters
/// each where words allow.
pub fn fill_line_words(line: &str, max_chars: usize) -> (r: Vec<String>)
    ensures
        string_views(r@) == fill_line(line@, max_chars as int),
{
    let words = split_whitespace(line);
    let ghost ws = views_of(words@);
    let mut out: Vec<String> = Vec::new();
    let mut cur = String::new();
    let mut cur_len: usize = 0;
    let mut i: usize = 0;
    proof {
        reveal_strlit(" ");
    }
    assert(ws.skip(0) =~= ws);
    assert(string_views(out@) =~= Seq::<Seq<char>>::empty());
    assert(string_views(out@) + fill_from(ws.skip(0), max_chars as int, cur@) =~= fill_from(
        ws,
        max_chars as int,
        Seq::empty(),
    ));
    while i < words.len()
        invariant
            ws == views_of(words@),
            i <= words@.len(),
            cur_len == cur@.len(),
            " "@ == seq![' '],
            string_views(out@) + fill_from(ws.skip(i as int), max_chars as int, cur@) == fill_from(
                ws,
                max_chars as int,
                Seq::<char>::empty(),
            ),
        decreases words@.len() - i,
    {
        let w = words[i];
        let w_len = w.unicode_len();
        let ghost rest = ws.skip(i as int);
        assert(rest[0] == w@);
        assert(rest.skip(1) =~= ws.skip(i + 1));
        let candidate: u128 = cur_len as u128 + 1 + w_len as u128;
        if cur_len > 0 && candidate > max_chars as u128 {
            let ghost before = string_views(out@);
            let done = cur;
            out.push(done);
            assert(string_views(out@) =~= before + seq![done@]);
            cur = String::from_str(w);
            cur_len = w_len;
        } else if cur_len == 0 {
            cur = String::from_str(w);
            cur_len = w_len;
        } else {
            cur.append(" ");
            cur.append(w);
            cur_len = cur_len + 1 + w_len;
        }
        i = i + 1;
    }
    let ghost before = string_views(out@);
    out.push(cur);
    assert(ws.skip(words@.len() as int) =~= Seq::<Seq<char>>::empty());
    assert(string_views(out@) =~= before + seq![out@.last()@]);
    out
}

/// The text of a block broken into lines: each of its lines filled with
/// whole words up to `max_chars` characters.
pub fn wrap_text(text: &str, max_chars: usize) -> (r: Vec<String>)
    ensures
        string_views(r@) == wrap_text_spec(text@, max_chars as int),
{
    let lines = split_lines(text);
    let ghost ls = views_of(lines@);
    let mut out: Vec<String> = Vec::new();
    let mut i: usize = 0;
    assert(ls.take(0) =~= Seq::<Seq<char>>::empty());
    assert(string_views(out@) =~= Seq::<Seq<char>>::empty());
    while i < lines.len()
        invariant
            ls == views_of(lines@),
            ls == lines_spec(text@),
            i <= lines@.len(),
            string_views(out@) == fill_lines(ls.take(i as int), max_chars as int),
        decreases lines@.len() - i,
    {
        let filled = fill_line_words(lines[i], max_chars);
        let ghost before = string_views(out@);
        let mut j: usize = 0;
        while j < filled.len()
            invariant
                j <= filled@.len(),
                string_views(out@) == before + string_views(filled@).take(j as int),
            decreases filled@.len() - j,
        {
            let item = filled[j].clone();
            let ghost mid = string_views(out@);
            out.push(item);
            assert(string_views(out@) =~= mid.push(item@));
            assert(string_views(filled@).take(j + 1) =~= string_views(filled@).take(j as int).push(
                filled@[j as int]@,
            ));
            assert(string_views(out@) =~= before + string_views(filled@).take(j + 1));
            j = j + 1;
        }
        assert(string_views(filled@).take(filled@.len() as int) =~= string_views(filled@));
        assert(ls.take(i + 1).drop_last() =~= ls.take(i as int));
        assert(ls.take(i + 1).last() == lines@[i as int]@);
        i = i + 1;
    }
    assert(ls.take(lines@.len() as int) =~= ls);
    out
}

} // verus!
