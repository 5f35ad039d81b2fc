//! The line wrapper: splits a text run on single spaces and greedily
//! packs the words into lines that fit the available width.
//!
//! A word is charged its own measured width plus one space width when it
//! is placed on a line.  When a word does not fit, the accumulated line
//! is flushed (recording its measured width) and the word starts a new
//! line whose budget is the full content width.  A word wider than even
//! the full content width still occupies a line of its own, so no word
//! is ever dropped.  The final partial line is always flushed.

use crate::font::MAX_SIZE_MPT;
use crate::metrics::{measured_width, GlyphTable, MAX_TEXT_LEN, MAX_WIDTH_MPT};
use vstd::prelude::*;

verus! {

/// The words of `s`: maximal runs of characters between single spaces.
/// Splitting on every space means consecutive spaces yield empty words;
/// joining the words back with single spaces restores `s` exactly.
pub open spec fn split_words(s: Seq<char>) -> Seq<Seq<char>>
    decreases s.len(),
{
    if s.len() == 0 {
        seq![Seq::<char>::empty()]
    } else {
        let rest = split_words(s.drop_last());
        if s.last() == ' ' {
            rest.push(Seq::<char>::empty())
        } else {
            rest.update(rest.len() - 1, rest.last().push(s.last()))
        }
    }
}

/// The words of `ws` joined with one space between adjacent words.
pub open spec fn join_words(ws: Seq<Seq<char>>) -> Seq<char>
    decreases ws.len(),
{
    if ws.len() == 0 {
        Seq::<char>::empty()
    } else if ws.len() == 1 {
        ws[0]
    } else {
        join_words(ws.drop_last()) + seq![' '] + ws.last()
    }
}

/// The total number of characters in a sequence of words, not counting
/// separators.
pub open spec fn total_chars(ws: Seq<Seq<char>>) -> int
    decreases ws.len(),
{
    if ws.len() == 0 {
        0
    } else {
        total_chars(ws.drop_last()) + ws.last().len()
    }
}

/// The width a word is charged when placed on a line: its own measured
/// width plus one space width.
pub open spec fn word_need(entries: Seq<(u32, u32)>, vscale: u32, size: u64, w: Seq<char>) -> int {
    measured_width(entries, vscale, size, w) + measured_width(entries, vscale, size, seq![' '])
}

/// Greedy packing of `words[i..]` into lines, with `cur` the line being
/// accumulated and `rem` its remaining budget.  A word that fits is
/// appended; one that does not flushes `cur` (unless it is still empty)
/// and starts a fresh line with the full content width as budget.  The
/// last line is always flushed, even when empty.
pub open spec fn wrap_rec(
    entries: Seq<(u32, u32)>,
    vscale: u32,
    size: u64,
    words: Seq<Seq<char>>,
    i: int,
    cur: Seq<Seq<char>>,
    rem: int,
    full: int,
) -> Seq<Seq<Seq<char>>>
    decreases words.len() - i,
{
    if i >= words.len() {
        seq![cur]
    } else {
        let need = word_need(entries, vscale, size, words[i]);
        let fresh_rem = if full - need >= 0 {
            full - need
        } else {
            0
        };
        if need <= rem {
            wrap_rec(entries, vscale, size, words, i + 1, cur.push(words[i]), rem - need, full)
        } else if cur.len() == 0 {
            wrap_rec(entries, vscale, size, words, i + 1, seq![words[i]], fresh_rem, full)
        } else {
            seq![cur] + wrap_rec(entries, vscale, size, words, i + 1, seq![words[i]], fresh_rem, full)
        }
    }
}

/// The groups of words that wrapping a whole text run produces.
pub open spec fn wrap_groups(
    entries: Seq<(u32, u32)>,
    vscale: u32,
    size: u64,
    s: Seq<char>,
    rem: int,
    full: int,
) -> Seq<Seq<Seq<char>>> {
    wrap_rec(entries, vscale, size, split_words(s), 0, Seq::empty(), rem, full)
}

/// The rendered form of a group of words: its joined text and the
/// joined text's measured width.
pub open spec fn lines_of(
    entries: Seq<(u32, u32)>,
    vscale: u32,
    size: u64,
    groups: Seq<Seq<Seq<char>>>,
) -> Seq<(Seq<char>, int)> {
    groups.map_values(
        |g: Seq<Seq<char>>|
            (join_words(g), measured_width(entries, vscale, size, join_words(g))),
    )
}

/// The lines a text run is drawn as: the run itself when its measured
/// width fits the remaining room, else the wrapped lines.
pub open spec fn text_lines(
    entries: Seq<(u32, u32)>,
    vscale: u32,
    size: u64,
    s: Seq<char>,
    remaining: int,
    full: int,
) -> Seq<(Seq<char>, int)> {
    if measured_width(entries, vscale, size, s) <= remaining {
        seq![(s, measured_width(entries, vscale, size, s))]
    } else {
        lines_of(entries, vscale, size, wrap_groups(entries, vscale, size, s, remaining, full))
    }
}

/// The views of a sequence of character vectors.
pub open spec fn views_of(ws: Seq<Vec<char>>) -> Seq<Seq<char>> {
    ws.map_values(|w: Vec<char>| w@)
}

/// The views of a sequence of rendered lines.
pub open spec fn line_views(ls: Seq<(Vec<char>, u64)>) -> Seq<(Seq<char>, int)> {
    ls.map_values(|l: (Vec<char>, u64)| (l.0@, l.1 as int))
}

proof fn lemma_total_chars_nonneg(ws: Seq<Seq<char>>)
    ensures
        total_chars(ws) >= 0,
    decreases ws.len(),
{
    if ws.len() > 0 {
        lemma_total_chars_nonneg(ws.drop_last());
    }
}

proof fn lemma_total_chars_singleton(w: Seq<char>)
    ensures
        total_chars(seq![w]) == w.len(),
{
    assert(seq![w].drop_last() =~= Seq::<Seq<char>>::empty());
    assert(total_chars(Seq::<Seq<char>>::empty()) == 0);
    assert(seq![w].last() == w);
}

proof fn lemma_total_chars_append(a: Seq<Seq<char>>, b: Seq<Seq<char>>)
    ensures
        total_chars(a + b) == total_chars(a) + total_chars(b),
    decreases b.len(),
{
    if b.len() == 0 {
        assert(a + b =~= a);
    } else {
        lemma_total_chars_append(a, b.drop_last());
        assert((a + b).drop_last() =~= a + b.drop_last());
        assert((a + b).last() == b.last());
    }
}

/// Splitting off the word at `i`: the total length of a suffix of words
/// decomposes into the head word and the rest.
proof fn lemma_total_chars_skip(ws: Seq<Seq<char>>, i: int)
    requires
        0 <= i < ws.len(),
    ensures
        total_chars(ws.skip(i)) == ws[i].len() + total_chars(ws.skip(i + 1)),
{
    assert(ws.skip(i) =~= seq![ws[i]] + ws.skip(i + 1));
    lemma_total_chars_append(seq![ws[i]], ws.skip(i + 1));
    lemma_total_chars_singleton(ws[i]);
}

/// The length of a joined line in characters: all its words' characters
/// plus one separator between adjacent words.
proof fn lemma_join_words_len(ws: Seq<Seq<char>>)
    ensures
        ws.len() == 0 ==> join_words(ws).len() == 0,
        ws.len() > 0 ==> join_words(ws).len() == total_chars(ws) + ws.len() - 1,
    decreases ws.len(),
{
    if ws.len() > 1 {
        lemma_join_words_len(ws.drop_last());
        assert(total_chars(ws) == total_chars(ws.drop_last()) + ws.last().len());
    } else if ws.len() == 1 {
        assert(total_chars(ws) == total_chars(ws.drop_last()) + ws.last().len());
        assert(ws.drop_last().len() == 0);
        assert(ws[0] == ws.last());
    }
}

/// A split always yields at least one word, and the words' characters
/// plus their separators account exactly for the characters of `s`.
proof fn lemma_split_words_shape(s: Seq<char>)
    ensures
        split_words(s).len() >= 1,
        total_chars(split_words(s)) + split_words(s).len() == s.len() + 1,
    decreases s.len(),
{
    if s.len() == 0 {
        assert(split_words(s) =~= seq![Seq::<char>::empty()]);
        lemma_total_chars_singleton(Seq::<char>::empty());
    } else {
        lemma_split_words_shape(s.drop_last());
        let rest = split_words(s.drop_last());
        if s.last() == ' ' {
            assert(split_words(s) == rest.push(Seq::<char>::empty()));
            assert(rest.push(Seq::<char>::empty()).drop_last() =~= rest);
        } else {
            let upd = rest.update(rest.len() - 1, rest.last().push(s.last()));
            assert(split_words(s) == upd);
            assert(upd.drop_last() =~= rest.drop_last());
            assert(upd.last() == rest.last().push(s.last()));
            assert(total_chars(upd) == total_chars(rest.drop_last()) + rest.last().len() + 1);
        }
    }
}

/// Law: wrapping is lossless and order-preserving.  Flattening the
/// packed groups restores the pending line followed by the words not
/// yet placed.
pub proof fn lemma_wrap_rec_flatten(
    entries: Seq<(u32, u32)>,
    vscale: u32,
    size: u64,
    words: Seq<Seq<char>>,
    i: int,
    cur: Seq<Seq<char>>,
    rem: int,
    full: int,
)
    requires
        0 <= i <= words.len(),
    ensures
        wrap_rec(entries, vscale, size, words, i, cur, rem, full).flatten() == cur + words.skip(
            i,
        ),
    decreases words.len() - i,
{
    if i >= words.len() {
        assert(wrap_rec(entries, vscale, size, words, i, cur, rem, full) == seq![cur]);
        assert(seq![cur].drop_first() =~= Seq::<Seq<Seq<char>>>::empty());
        assert(Seq::<Seq<Seq<char>>>::empty().flatten() =~= Seq::<Seq<char>>::empty());
        assert(seq![cur].flatten() =~= cur);
        assert(words.skip(i) =~= Seq::<Seq<char>>::empty());
        assert(cur + words.skip(i) =~= cur);
    } else {
        let need = word_need(entries, vscale, size, words[i]);
        let fresh_rem = if full - need >= 0 {
            full - need
        } else {
            0
        };
        assert(words.skip(i) =~= seq![words[i]] + words.skip(i + 1));
        if need <= rem {
            lemma_wrap_rec_flatten(
                entries,
                vscale,
                size,
                words,
                i + 1,
                cur.push(words[i]),
                rem - need,
                full,
            );
            assert(cur.push(words[i]) + words.skip(i + 1) =~= cur + words.skip(i));
        } else if cur.len() == 0 {
            lemma_wrap_rec_flatten(
                entries,
                vscale,
                size,
                words,
                i + 1,
                seq![words[i]],
                fresh_rem,
                full,
            );
            assert(seq![words[i]] + words.skip(i + 1) =~= cur + words.skip(i));
        } else {
            lemma_wrap_rec_flatten(
                entries,
                vscale,
                size,
                words,
                i + 1,
                seq![words[i]],
                fresh_rem,
                full,
            );
            let rest = wrap_rec(
                entries,
                vscale,
                size,
                words,
                i + 1,
                seq![words[i]],
                fresh_rem,
                full,
            );
            assert((seq![cur] + rest).drop_first() =~= rest);
            assert((seq![cur] + rest).first() == cur);
            assert((seq![cur] + rest).flatten() == cur + rest.flatten());
            assert(cur + (seq![words[i]] + words.skip(i + 1)) =~= cur + words.skip(i));
            assert(cur + rest.flatten() =~= cur + words.skip(i));
        }
    }
}

/// Law: for any text run, the concatenation of all wrapped lines'
/// words equals the run's own words, in order.
pub proof fn lemma_wrap_words_preserved(
    entries: Seq<(u32, u32)>,
    vscale: u32,
    size: u64,
    s: Seq<char>,
    rem: int,
    full: int,
)
    ensures
        wrap_groups(entries, vscale, size, s, rem, full).flatten() == split_words(s),
{
    lemma_wrap_rec_flatten(entries, vscale, size, split_words(s), 0, Seq::empty(), rem, full);
    assert(split_words(s).skip(0) =~= split_words(s));
    assert(Seq::<Seq<char>>::empty() + split_words(s) =~= split_words(s));
}

/// Law: a text run whose measured width fits the remaining room is laid
/// out as exactly one line equal to the run itself.
pub proof fn lemma_fit_is_single_line(
    entries: Seq<(u32, u32)>,
    vscale: u32,
    size: u64,
    s: Seq<char>,
    remaining: int,
    full: int,
)
    requires
        measured_width(entries, vscale, size, s) <= remaining,
    ensures
        text_lines(entries, vscale, size, s, remaining, full) == seq![
            (s, measured_width(entries, vscale, size, s)),
        ],
{
}

/// Splits `text` on single spaces.
pub fn split_text(text: &Vec<char>) -> (words: Vec<Vec<char>>)
    ensures
        views_of(words@) == split_words(text@),
{
    let n = text.len();
    let mut words: Vec<Vec<char>> = Vec::new();
    let mut cur: Vec<char> = Vec::new();
    let mut i: usize = 0;
    proof {
        assert(text@.take(0) =~= Seq::<char>::empty());
        assert(split_words(text@.take(0)) =~= views_of(words@).push(cur@));
    }
    while i < n
        invariant
            n == text@.len(),
            i <= n,
            split_words(text@.take(i as int)) == views_of(words@).push(cur@),
        decreases n - i,
    {
        let c = text[i];
        proof {
            assert(text@.take(i + 1).drop_last() =~= text@.take(i as int));
            assert(text@.take(i + 1).last() == text@[i as int]);
        }
        if c == ' ' {
            words.push(cur);
            cur = Vec::new();
            proof {
                assert(views_of(words@) =~= split_words(text@.take(i as int)));
                assert(split_words(text@.take(i + 1)) =~= views_of(words@).push(cur@));
            }
        } else {
            cur.push(c);
            proof {
                let prev = split_words(text@.take(i as int));
                assert(prev.update(prev.len() - 1, prev.last().push(c)) =~= views_of(
                    words@,
                ).push(cur@));
            }
        }
        i += 1;
    }
    proof {
        assert(text@.take(n as int) =~= text@);
    }
    words.push(cur);
    proof {
        assert(views_of(words@) =~= split_words(text@));
    }
    words
}

/// Joins a group of words with single spaces.
pub fn join_group(ws: &Vec<Vec<char>>) -> (r: Vec<char>)
    ensures
        r@ == join_words(views_of(ws@)),
{
    let n = ws.len();
    let mut r: Vec<char> = Vec::new();
    let mut j: usize = 0;
    proof {
        assert(views_of(ws@).take(0) =~= Seq::<Seq<char>>::empty());
    }
    while j < n
        invariant
            n == ws@.len(),
            j <= n,
            r@ == join_words(views_of(ws@).take(j as int)),
        decreases n - j,
    {
        if j > 0 {
            r.push(' ');
        }
        let w = &ws[j];
        let m = w.len();
        let ghost r_mid = r@;
        let mut k: usize = 0;
        while k < m
            invariant
                m == w@.len(),
                k <= m,
                r@ == r_mid + w@.take(k as int),
            decreases m - k,
        {
            let c = w[k];
            r.push(c);
            proof {
                assert(r_mid + w@.take(k + 1) =~= (r_mid + w@.take(k as int)).push(c));
            }
            k += 1;
        }
        proof {
            let vw = views_of(ws@);
            assert(w@.take(m as int) =~= w@);
            assert(vw.take(j + 1).drop_last() =~= vw.take(j as int));
            assert(vw.take(j + 1).last() == vw[j as int]);
            assert(vw[j as int] == ws@[j as int]@);
            if j == 0 {
                assert(vw.take(1).len() == 1);
                assert(join_words(vw.take(1)) == vw.take(1)[0]);
                assert(r@ =~= join_words(vw.take(j + 1)));
            } else {
                assert(join_words(vw.take(j + 1)) == join_words(vw.take(j as int)) + seq![' ']
                    + vw[j as int]);
                assert(r@ =~= join_words(vw.take(j + 1)));
            }
        }
        j += 1;
    }
    proof {
        assert(views_of(ws@).take(n as int) =~= views_of(ws@));
    }
    r
}

/// Wraps `text` into lines: the first line has `first_rem` millipoints
/// of room, every later line the full content width `full`.  Returns
/// each line's text and measured width, in order.
pub fn wrap_text(tbl: &GlyphTable, size: u64, text: &Vec<char>, first_rem: u64, full: u64) -> (lines:
    Vec<(Vec<char>, u64)>)
    requires
        tbl.wf(),
        size <= MAX_SIZE_MPT,
        text@.len() <= MAX_TEXT_LEN,
    ensures
        line_views(lines@) == lines_of(
            tbl.entries@,
            tbl.vert_scale,
            size,
            wrap_groups(tbl.entries@, tbl.vert_scale, size, text@, first_rem as int, full as int),
        ),
{
    let ghost entries = tbl.entries@;
    let ghost vscale = tbl.vert_scale;
    let words = split_text(text);
    let ghost wv = views_of(words@);
    proof {
        lemma_split_words_shape(text@);
        lemma_total_chars_nonneg(wv);
    }
    let mut space: Vec<char> = Vec::new();
    space.push(' ');
    proof {
        assert(space@ =~= seq![' ']);
    }
    let sw = tbl.measure(&space, size);

    let n = words.len();
    let mut lines: Vec<(Vec<char>, u64)> = Vec::new();
    let mut cur: Vec<Vec<char>> = Vec::new();
    let mut rem: u64 = first_rem;
    let mut i: usize = 0;
    proof {
        assert(views_of(cur@) =~= Seq::<Seq<char>>::empty());
        assert(wv.skip(0) =~= wv);
        assert(line_views(lines@) =~= Seq::<(Seq<char>, int)>::empty());
        assert(Seq::<(Seq<char>, int)>::empty() + lines_of(
            entries,
            vscale,
            size,
            wrap_rec(entries, vscale, size, wv, 0, Seq::empty(), first_rem as int, full as int),
        ) =~= lines_of(
            entries,
            vscale,
            size,
            wrap_rec(entries, vscale, size, wv, 0, Seq::empty(), first_rem as int, full as int),
        ));
    }
    while i < n
        invariant
            tbl.wf(),
            size <= MAX_SIZE_MPT,
            entries == tbl.entries@,
            vscale == tbl.vert_scale,
            text@.len() <= MAX_TEXT_LEN,
            n == words@.len(),
            wv == views_of(words@),
            wv == split_words(text@),
            i <= n,
            sw as int == measured_width(entries, vscale, size, seq![' ']),
            sw <= MAX_WIDTH_MPT,
            total_chars(views_of(cur@)) + views_of(cur@).len() + total_chars(wv.skip(i as int)) + (
            n - i) <= text@.len() + 1,
            total_chars(views_of(cur@)) >= 0,
            line_views(lines@) + lines_of(
                entries,
                vscale,
                size,
                wrap_rec(
                    entries,
                    vscale,
                    size,
                    wv,
                    i as int,
                    views_of(cur@),
                    rem as int,
                    full as int,
                ),
            ) == lines_of(
                entries,
                vscale,
                size,
                wrap_rec(entries, vscale, size, wv, 0, Seq::empty(), first_rem as int, full as int),
            ),
        decreases n - i,
    {
        proof {
            lemma_total_chars_skip(wv, i as int);
            lemma_total_chars_nonneg(wv.skip(i as int + 1));
            lemma_total_chars_nonneg(views_of(cur@));
            assert(wv[i as int] == words@[i as int]@);
        }
        let w = &words[i];
        let ww = tbl.measure(w, size);
        let need = ww + sw;
        let ghost g = views_of(cur@);
        let ghost old_rem = rem;
        if need <= rem {
            cur.push(w.clone());
            rem = rem - need;
            proof {
                assert(views_of(cur@) =~= g.push(wv[i as int]));
                assert(g.push(wv[i as int]).drop_last() =~= g);
                assert(total_chars(g.push(wv[i as int])) == total_chars(g)
                    + wv[i as int].len());
            }
        } else {
            let flush_line = cur.len() > 0;
            if flush_line {
                let joined = join_group(&cur);
                proof {
                    lemma_join_words_len(g);
                }
                let lw = tbl.measure(&joined, size);
                lines.push((joined, lw));
            }
            cur = Vec::new();
            cur.push(w.clone());
            rem = full.saturating_sub(need);
            proof {
                assert(views_of(cur@) =~= seq![wv[i as int]]);
                lemma_total_chars_singleton(wv[i as int]);
                if flush_line {
                    let rest = wrap_rec(
                        entries,
                        vscale,
                        size,
                        wv,
                        i as int + 1,
                        seq![wv[i as int]],
                        rem as int,
                        full as int,
                    );
                    assert(wrap_rec(
                        entries,
                        vscale,
                        size,
                        wv,
                        i as int,
                        g,
                        old_rem as int,
                        full as int,
                    ) == seq![g] + rest);
                    assert(lines_of(entries, vscale, size, seq![g] + rest) =~= seq![
                        (join_words(g), measured_width(entries, vscale, size, join_words(g))),
                    ] + lines_of(entries, vscale, size, rest));
                    assert(line_views(lines@) =~= line_views(lines@.drop_last()) + seq![
                        (
                            join_words(g),
                            measured_width(entries, vscale, size, join_words(g)),
                        ),
                    ]);
                    assert(line_views(lines@) + lines_of(entries, vscale, size, rest)
                        =~= line_views(lines@.drop_last()) + lines_of(
                        entries,
                        vscale,
                        size,
                        seq![g] + rest,
                    ));
                }
            }
        }
        i += 1;
    }
    proof {
        lemma_total_chars_nonneg(wv.skip(n as int));
        lemma_join_words_len(views_of(cur@));
    }
    let joined = join_group(&cur);
    let lw = tbl.measure(&joined, size);
    lines.push((joined, lw));
    proof {
        let g = views_of(cur@);
        assert(wrap_rec(entries, vscale, size, wv, n as int, g, rem as int, full as int)
            == seq![g]);
        assert(lines_of(entries, vscale, size, seq![g]) =~= seq![
            (join_words(g), measured_width(entries, vscale, size, join_words(g))),
        ]);
        assert(line_views(lines@) =~= line_views(lines@.drop_last()) + seq![
            (join_words(g), measured_width(entries, vscale, size, join_words(g))),
        ]);
    }
    lines
}

} // verus!
