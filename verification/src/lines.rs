//! Lines of text: splitting as std's `str::lines` does, joining with a
//! separator, and replacing every occurrence of a pattern.
use vstd::prelude::*;
use crate::text::{
    is_white_space, is_whitespace_char, chars_of, find_first_of, first_of, is_prefix, push_str, slice_chars,
    starts_with, string_of,
};

verus! {

/// `first_of` lies within the text, every character before it differs from
/// both marks, and the character at it, if any, is one of them.
pub proof fn lemma_first_of_bounds(s: Seq<char>, a: char, b: char)
    ensures
        0 <= first_of(s, a, b) <= s.len(),
        forall|j: int| 0 <= j < first_of(s, a, b) ==> s[j] != a && s[j] != b,
        first_of(s, a, b) < s.len() ==> (s[first_of(s, a, b)] == a || s[first_of(s, a, b)] == b),
    decreases s.len(),
{
    if s.len() > 0 && s[0] != a && s[0] != b {
        lemma_first_of_bounds(s.drop_first(), a, b);
        assert forall|j: int| 0 <= j < first_of(s, a, b) implies s[j] != a && s[j] != b by {
            if j > 0 {
                assert(s[j] == s.drop_first()[j - 1]);
            }
        }
    }
}

/// A line as `str::lines` yields it: the text before a line feed, without a
/// carriage return that ends it just before the line feed.
pub open spec fn line_at_break(s: Seq<char>, i: int) -> Seq<char> {
    if i < s.len() && i > 0 && s[i - 1] == '\r' {
        s.take(i - 1)
    } else {
        s.take(i)
    }
}

/// The lines of a text, as std's `str::lines` splits it: at each `\n`, a
/// `\r` just before the `\n` dropped, and no empty line after a final `\n`.
pub open spec fn lines_spec(s: Seq<char>) -> Seq<Seq<char>>
    decreases s.len(),
{
    if s.len() == 0 {
        Seq::empty()
    } else {
        let i = first_of(s, '\n', '\n');
        proof {
            lemma_first_of_bounds(s, '\n', '\n');
        }
        if i < s.len() {
            seq![line_at_break(s, i)] + lines_spec(s.skip(i + 1))
        } else {
            seq![s]
        }
    }
}

/// The characters of each string.
pub open spec fn texts(v: Seq<String>) -> Seq<Seq<char>> {
    v.map_values(|s: String| s@)
}

/// Splits a text into its lines (std's `str::lines`).
pub fn split_lines(text: &str) -> (out: Vec<String>)
    ensures
        texts(out@) == lines_spec(text@),
{
    let s = chars_of(text);
    let n = s.len();
    let mut out: Vec<String> = Vec::new();
    let mut pos: usize = 0;
    assert(s@.skip(0) =~= s@);
    assert(texts(out@) + lines_spec(s@) =~= lines_spec(s@));
    while pos < n
        invariant
            n == s@.len(),
            s@ == text@,
            pos <= n,
            lines_spec(s@) == texts(out@) + lines_spec(s@.skip(pos as int)),
        decreases n - pos,
    {
        let ghost t = s@.skip(pos as int);
        let j = find_first_of(&s, pos, n, '\n', '\n');
        assert(s@.subrange(pos as int, n as int) =~= t);
        proof {
            lemma_first_of_bounds(t, '\n', '\n');
        }
        let end = if j < n && j > pos && s[j - 1] == '\r' {
            j - 1
        } else {
            j
        };
        let piece = slice_chars(&s, pos, end);
        let line = string_of(&piece);
        assert(line@ == line_at_break(t, j - pos));
        let ghost before = texts(out@);
        out.push(line);
        assert(texts(out@) =~= before.push(line@));
        if j < n {
            assert(t.skip(j - pos + 1) =~= s@.skip(j + 1));
            assert(lines_spec(t) == seq![line@] + lines_spec(s@.skip(j + 1)));
            pos = j + 1;
        } else {
            assert(lines_spec(t) == seq![line@]);
            assert(s@.skip(n as int) =~= Seq::<char>::empty());
            pos = n;
        }
        assert(before.push(line@) + lines_spec(s@.skip(pos as int)) =~= before + lines_spec(t));
    }
    assert(s@.skip(pos as int) =~= Seq::<char>::empty());
    assert(texts(out@) + Seq::<Seq<char>>::empty() =~= texts(out@));
    out
}

/// The pieces joined with `sep` between each two (std's `join`).
pub open spec fn join_spec(pieces: Seq<Seq<char>>, sep: Seq<char>) -> Seq<char>
    decreases pieces.len(),
{
    if pieces.len() == 0 {
        Seq::empty()
    } else if pieces.len() == 1 {
        pieces[0]
    } else {
        join_spec(pieces.drop_last(), sep) + sep + pieces.last()
    }
}

/// Joins the strings with `sep` between each two (std's `[String]::join`).
pub fn join_with(pieces: &[String], sep: &str) -> (out: String)
    ensures
        out@ == join_spec(texts(pieces@), sep@),
{
    let mut out = String::new();
    let mut i: usize = 0;
    while i < pieces.len()
        invariant
            i <= pieces@.len(),
            out@ == join_spec(texts(pieces@).take(i as int), sep@),
        decreases pieces@.len() - i,
    {
        let ghost before = texts(pieces@).take(i as int);
        if i > 0 {
            push_str(&mut out, sep);
        }
        push_str(&mut out, pieces[i].as_str());
        i = i + 1;
        proof {
            let now = texts(pieces@).take(i as int);
            assert(now.drop_last() =~= before);
            assert(now.last() == pieces@[i - 1]@);
            if i == 1 {
                assert(join_spec(now, sep@) == now[0]);
            }
        }
    }
    assert(texts(pieces@).take(pieces@.len() as int) =~= texts(pieces@));
    out
}

/// Every occurrence of `pat` in `s`, from left to right and without
/// overlap, replaced by `with` (std's `str::replace`, for a pattern that is
/// not empty).
pub open spec fn replace_spec(s: Seq<char>, pat: Seq<char>, with: Seq<char>) -> Seq<char>
    decreases s.len(),
{
    if s.len() == 0 || pat.len() == 0 {
        s
    } else if is_prefix(pat, s) {
        with + replace_spec(s.skip(pat.len() as int), pat, with)
    } else {
        seq![s[0]] + replace_spec(s.drop_first(), pat, with)
    }
}

/// Replaces every occurrence of `pat` by `with` (std's `str::replace`).
pub fn replace_all(text: &str, pat: &str, with: &str) -> (out: String)
    requires
        pat@.len() > 0,
    ensures
        out@ == replace_spec(text@, pat@, with@),
{
    let s = chars_of(text);
    let p = chars_of(pat);
    let n = s.len();
    let mut out = String::new();
    let mut pos: usize = 0;
    assert(s@.skip(0) =~= s@);
    assert(out@ + replace_spec(s@, p@, with@) =~= replace_spec(s@, p@, with@));
    while pos < n
        invariant
            n == s@.len(),
            s@ == text@,
            p@ == pat@,
            p@.len() > 0,
            pos <= n,
            replace_spec(s@, p@, with@) == out@ + replace_spec(s@.skip(pos as int), p@, with@),
        decreases n - pos,
    {
        let ghost t = s@.skip(pos as int);
        let rest = slice_chars(&s, pos, n);
        assert(rest@ =~= t);
        let ghost before = out@;
        if starts_with(&rest, &p) {
            push_str(&mut out, with);
            assert(t.skip(p@.len() as int) =~= s@.skip(pos + p@.len()));
            pos = pos + p.len();
            assert(before + with@ + replace_spec(s@.skip(pos as int), p@, with@) =~= before
                + replace_spec(t, p@, with@));
        } else {
            let c = s[pos];
            let mut one = String::new();
            crate::text::push_char(&mut one, c);
            push_str(&mut out, one.as_str());
            assert(t.drop_first() =~= s@.skip(pos + 1));
            pos = pos + 1;
            assert(before + seq![c] + replace_spec(s@.skip(pos as int), p@, with@) =~= before
                + replace_spec(t, p@, with@));
        }
    }
    assert(s@.skip(pos as int) =~= Seq::<char>::empty());
    assert(out@ + Seq::<char>::empty() =~= out@);
    out
}

/// Length of the run of characters before the first whitespace.
pub open spec fn word_len(s: Seq<char>) -> int
    decreases s.len(),
{
    if s.len() == 0 || is_white_space(s[0]) {
        0
    } else {
        1 + word_len(s.drop_first())
    }
}

/// `word_len` is `k` when `s[k]` is the first whitespace, or the end.
pub proof fn lemma_word_len(s: Seq<char>, k: int)
    requires
        0 <= k <= s.len(),
        forall|j: int| 0 <= j < k ==> !is_white_space(s[j]),
        k == s.len() || is_white_space(s[k]),
    ensures
        word_len(s) == k,
    decreases k,
{
    if k > 0 {
        lemma_word_len(s.drop_first(), k - 1);
    }
}

/// `word_len` lies within the text.
pub proof fn lemma_word_len_bounds(s: Seq<char>)
    ensures
        0 <= word_len(s) <= s.len(),
    decreases s.len(),
{
    if s.len() > 0 && !is_white_space(s[0]) {
        lemma_word_len_bounds(s.drop_first());
    }
}

/// The words of a text: the runs of characters between Unicode whitespace
/// (std's `str::split_whitespace`).
pub open spec fn words_spec(s: Seq<char>) -> Seq<Seq<char>>
    decreases s.len(),
{
    if s.len() == 0 {
        Seq::empty()
    } else if is_white_space(s[0]) {
        words_spec(s.drop_first())
    } else {
        let k = word_len(s);
        proof {
            lemma_word_len_bounds(s.drop_first());
        }
        seq![s.take(k)] + words_spec(s.skip(k))
    }
}

/// Splits a text into its words (std's `str::split_whitespace`).
pub fn split_whitespace(text: &str) -> (out: Vec<String>)
    ensures
        texts(out@) == words_spec(text@),
{
    let s = chars_of(text);
    let n = s.len();
    let mut out: Vec<String> = Vec::new();
    let mut pos: usize = 0;
    assert(s@.skip(0) =~= s@);
    assert(texts(out@) + words_spec(s@) =~= words_spec(s@));
    while pos < n
        invariant
            n == s@.len(),
            s@ == text@,
            pos <= n,
            words_spec(s@) == texts(out@) + words_spec(s@.skip(pos as int)),
        decreases n - pos,
    {
        let ghost t = s@.skip(pos as int);
        if is_whitespace_char(s[pos]) {
            assert(t.drop_first() =~= s@.skip(pos + 1));
            pos = pos + 1;
        } else {
            let mut k = pos;
            while k < n && !is_whitespace_char(s[k])
                invariant
                    pos <= k <= n,
                    n == s@.len(),
                    forall|j: int| pos <= j < k ==> !is_white_space(s@[j]),
                decreases n - k,
            {
                k = k + 1;
            }
            proof {
                lemma_word_len(t, k - pos);
            }
            let piece = slice_chars(&s, pos, k);
            let word = string_of(&piece);
            assert(word@ =~= t.take(k - pos));
            let ghost before = texts(out@);
            out.push(word);
            assert(texts(out@) =~= before.push(t.take(k - pos)));
            assert(t.skip(k - pos) =~= s@.skip(k as int));
            assert(before.push(t.take(k - pos)) + words_spec(s@.skip(k as int)) =~= before + words_spec(t));
            pos = k;
        }
    }
    assert(s@.skip(pos as int) =~= Seq::<char>::empty());
    assert(texts(out@) + Seq::<Seq<char>>::empty() =~= texts(out@));
    out
}

/// The pieces of a text between the separators (std's `str::split` with a
/// character): one more piece than separators, empty ones included.
pub open spec fn split_spec(s: Seq<char>, sep: char) -> Seq<Seq<char>>
    decreases s.len(),
{
    let i = first_of(s, sep, sep);
    proof {
        lemma_first_of_bounds(s, sep, sep);
    }
    if i < s.len() {
        seq![s.take(i)] + split_spec(s.skip(i + 1), sep)
    } else {
        seq![s]
    }
}

/// Splits a text at each separator (std's `str::split` with a character).
pub fn split_at_char(text: &str, sep: char) -> (out: Vec<String>)
    ensures
        texts(out@) == split_spec(text@, sep),
{
    let s = chars_of(text);
    let n = s.len();
    let mut out: Vec<String> = Vec::new();
    let mut pos: usize = 0;
    assert(s@.skip(0) =~= s@);
    assert(texts(out@) + split_spec(s@, sep) =~= split_spec(s@, sep));
    loop
        invariant
            n == s@.len(),
            s@ == text@,
            pos <= n,
            split_spec(s@, sep) == texts(out@) + split_spec(s@.skip(pos as int), sep),
        decreases n - pos,
    {
        let ghost t = s@.skip(pos as int);
        let j = find_first_of(&s, pos, n, sep, sep);
        assert(s@.subrange(pos as int, n as int) =~= t);
        proof {
            lemma_first_of_bounds(t, sep, sep);
        }
        let piece = slice_chars(&s, pos, j);
        let part = string_of(&piece);
        assert(part@ =~= t.take(j - pos));
        let ghost before = texts(out@);
        out.push(part);
        assert(texts(out@) =~= before.push(t.take(j - pos)));
        if j < n {
            assert(t.skip(j - pos + 1) =~= s@.skip(j + 1));
            assert(before.push(t.take(j - pos)) + split_spec(s@.skip(j + 1), sep) =~= before
                + split_spec(t, sep));
            pos = j + 1;
        } else {
            assert(split_spec(t, sep) == seq![t]);
            assert(t.take(j - pos) =~= t);
            assert(texts(out@) =~= before + split_spec(t, sep));
            return out;
        }
    }
}

} // verus!
