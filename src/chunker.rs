//! Paragraph-aligned chunking of document text.
//!
//! The text is cut at every blank line (`"\n\n"`, scanned left to right),
//! each piece is trimmed of Unicode white space, empty pieces are dropped,
//! and the remaining paragraphs are packed greedily into segments joined by
//! a blank line, a new segment being started when the next paragraph would
//! take the current one past the byte budget.
use vstd::prelude::*;
use crate::text::{byte_width, chars_of, string_from_chars, utf8_width};

verus! {

/// The Unicode `White_Space` property, as used by `str::trim`.
pub open spec fn is_blank_char(c: char) -> bool {
    let u = c as u32;
    (9 <= u <= 13) || u == 32 || u == 0x85 || u == 0xA0 || u == 0x1680 || (0x2000 <= u <= 0x200A)
        || u == 0x2028 || u == 0x2029 || u == 0x202F || u == 0x205F || u == 0x3000
}

pub open spec fn trim_start(s: Seq<char>) -> Seq<char>
    decreases s.len(),
{
    if s.len() > 0 && is_blank_char(s[0]) {
        trim_start(s.drop_first())
    } else {
        s
    }
}

pub open spec fn trim_end(s: Seq<char>) -> Seq<char>
    decreases s.len(),
{
    if s.len() > 0 && is_blank_char(s.last()) {
        trim_end(s.drop_last())
    } else {
        s
    }
}

/// `s` without leading and trailing white space.
pub open spec fn trim(s: Seq<char>) -> Seq<char> {
    trim_end(trim_start(s))
}

/// A blank line (two consecutive newlines) starts at position `j` of `s`.
pub open spec fn is_sep(s: Seq<char>, j: int) -> bool {
    0 <= j && j + 1 < s.len() && s[j] == '\n' && s[j + 1] == '\n'
}

/// Offset from `i` of the first blank line that starts at or after `i`.
pub open spec fn sep_from(s: Seq<char>, i: int) -> Option<nat>
    decreases s.len() - i,
{
    if i < 0 || i + 1 >= s.len() {
        None
    } else if is_sep(s, i) {
        Some(0)
    } else {
        match sep_from(s, i + 1) {
            Some(k) => Some(k + 1),
            None => None,
        }
    }
}

/// The pieces of `s` from `start` on, cut at each blank line.
pub open spec fn paragraphs_from(s: Seq<char>, start: int) -> Seq<Seq<char>>
    decreases s.len() - start via paragraphs_from_decreases
{
    if start < 0 || start > s.len() {
        seq![]
    } else {
        match sep_from(s, start) {
            None => seq![s.subrange(start, s.len() as int)],
            Some(k) => seq![s.subrange(start, start + k)] + paragraphs_from(s, start + k + 2),
        }
    }
}

#[via_fn]
proof fn paragraphs_from_decreases(s: Seq<char>, start: int) {
    if 0 <= start <= s.len() {
        lemma_sep_from(s, start);
    }
}

/// The pieces of `s` cut at each blank line, as `str::split("\n\n")` gives them.
pub open spec fn paragraphs(s: Seq<char>) -> Seq<Seq<char>> {
    paragraphs_from(s, 0)
}

/// The trimmed pieces that are not empty, in order.
pub open spec fn kept(ps: Seq<Seq<char>>) -> Seq<Seq<char>>
    decreases ps.len(),
{
    if ps.len() == 0 {
        seq![]
    } else {
        let k = kept(ps.drop_last());
        let t = trim(ps.last());
        if t.len() == 0 {
            k
        } else {
            k.push(t)
        }
    }
}

/// The paragraphs of `g` joined by a blank line.
pub open spec fn join_blank(g: Seq<Seq<char>>) -> Seq<char>
    decreases g.len(),
{
    if g.len() == 0 {
        seq![]
    } else if g.len() == 1 {
        g[0]
    } else {
        join_blank(g.drop_last()) + seq!['\n', '\n'] + g.last()
    }
}

/// Greedy grouping of paragraphs under the byte budget `max`: a paragraph
/// joins the last group unless that would make its text longer than `max`.
pub open spec fn pack(ks: Seq<Seq<char>>, max: nat) -> Seq<Seq<Seq<char>>>
    decreases ks.len(),
{
    if ks.len() == 0 {
        seq![]
    } else {
        let g = pack(ks.drop_last(), max);
        let p = ks.last();
        if g.len() == 0 {
            seq![seq![p]]
        } else if byte_width(join_blank(g.last())) + byte_width(p) + 2 > max {
            g.push(seq![p])
        } else {
            g.update(g.len() - 1, g.last().push(p))
        }
    }
}

/// The groups of paragraphs that make up the segments of `text`.
pub open spec fn chunk_groups(text: Seq<char>, max: nat) -> Seq<Seq<Seq<char>>> {
    pack(kept(paragraphs(text)), max)
}

/// The segments of `text` under the byte budget `max`.
pub open spec fn chunk_texts(text: Seq<char>, max: nat) -> Seq<Seq<char>> {
    let g = chunk_groups(text, max);
    Seq::new(g.len(), |i: int| join_blank(g[i]))
}

/// All groups laid end to end.
pub open spec fn concat_groups(gs: Seq<Seq<Seq<char>>>) -> Seq<Seq<char>>
    decreases gs.len(),
{
    if gs.len() == 0 {
        seq![]
    } else {
        concat_groups(gs.drop_last()) + gs.last()
    }
}

pub proof fn lemma_width_concat(a: Seq<char>, b: Seq<char>)
    ensures
        byte_width(a + b) == byte_width(a) + byte_width(b),
    decreases b.len(),
{
    if b.len() == 0 {
        assert(a + b =~= a);
    } else {
        lemma_width_concat(a, b.drop_last());
        assert((a + b).drop_last() =~= a + b.drop_last());
    }
}

proof fn lemma_sep_from(s: Seq<char>, i: int)
    requires
        0 <= i,
    ensures
        match sep_from(s, i) {
            Some(k) => is_sep(s, i + k) && forall|j: int| i <= j < i + k ==> !is_sep(s, j),
            None => forall|j: int| i <= j ==> !is_sep(s, j),
        },
    decreases s.len() - i,
{
    if i + 1 >= s.len() {
    } else if is_sep(s, i) {
    } else {
        lemma_sep_from(s, i + 1);
    }
}

/// `str::trim`'s notion of white space.
fn is_blank(c: char) -> (b: bool)
    ensures
        b == is_blank_char(c),
{
    let u = c as u32;
    (9 <= u && u <= 13) || u == 32 || u == 0x85 || u == 0xA0 || u == 0x1680 || (0x2000 <= u && u
        <= 0x200A) || u == 0x2028 || u == 0x2029 || u == 0x202F || u == 0x205F || u == 0x3000
}

fn char_width(c: char) -> (w: u128)
    ensures
        w == utf8_width(c),
{
    let u = c as u32;
    if u < 0x80 {
        1
    } else if u < 0x800 {
        2
    } else if u < 0x10000 {
        3
    } else {
        4
    }
}

/// Position of the first blank line at or after `start`.
fn find_separator(v: &Vec<char>, start: usize) -> (r: Option<usize>)
    requires
        start <= v.len(),
    ensures
        match sep_from(v@, start as int) {
            Some(k) => r == Some((start + k) as usize),
            None => r is None,
        },
{
    let mut i: usize = start;
    while i < v.len() && i + 1 < v.len()
        invariant
            start <= i <= v.len(),
            forall|j: int| start <= j < i ==> !is_sep(v@, j),
        decreases v.len() - i,
    {
        if v[i] == '\n' && v[i + 1] == '\n' {
            proof {
                assert(is_sep(v@, i as int));
                lemma_sep_from(v@, start as int);
                match sep_from(v@, start as int) {
                    Some(k) => {
                        assert(!(start + k < i));
                        assert(!(start + k > i));
                    },
                    None => {
                        assert(is_sep(v@, i as int));
                    },
                }
            }
            return Some(i);
        }
        i = i + 1;
    }
    proof {
        lemma_sep_from(v@, start as int);
        match sep_from(v@, start as int) {
            Some(k) => {
                assert(is_sep(v@, start + k));
            },
            None => {},
        }
    }
    None
}

/// Bounds of the trimmed part of `v[a..b]`.
pub(crate) fn trimmed_bounds(v: &Vec<char>, a: usize, b: usize) -> (r: (usize, usize))
    requires
        a <= b <= v.len(),
    ensures
        a <= r.0 <= r.1 <= b,
        v@.subrange(r.0 as int, r.1 as int) == trim(v@.subrange(a as int, b as int)),
{
    let mut lo: usize = a;
    while lo < b && is_blank(v[lo])
        invariant
            a <= lo <= b <= v.len(),
            trim_start(v@.subrange(a as int, b as int)) == trim_start(v@.subrange(lo as int, b as int)),
        decreases b - lo,
    {
        assert(v@.subrange(lo as int, b as int).drop_first() =~= v@.subrange(lo + 1, b as int));
        lo = lo + 1;
    }
    let mut hi: usize = b;
    while hi > lo && is_blank(v[hi - 1])
        invariant
            a <= lo <= hi <= b <= v.len(),
            trim_end(v@.subrange(lo as int, b as int)) == trim_end(v@.subrange(lo as int, hi as int)),
        decreases hi - lo,
    {
        assert(v@.subrange(lo as int, hi as int).drop_last() =~= v@.subrange(lo as int, hi - 1));
        hi = hi - 1;
    }
    (lo, hi)
}

/// Byte width of `v[lo..hi]`.
fn range_width(v: &Vec<char>, lo: usize, hi: usize) -> (w: u128)
    requires
        lo <= hi <= v.len(),
    ensures
        w == byte_width(v@.subrange(lo as int, hi as int)),
        w <= 4 * (hi - lo),
{
    let mut w: u128 = 0;
    let mut i: usize = lo;
    while i < hi
        invariant
            lo <= i <= hi <= v.len(),
            w == byte_width(v@.subrange(lo as int, i as int)),
            w <= 4 * (i - lo),
        decreases hi - i,
    {
        assert(v@.subrange(lo as int, i + 1).drop_last() =~= v@.subrange(lo as int, i as int));
        w = w + char_width(v[i]);
        i = i + 1;
    }
    w
}

proof fn lemma_width_blank_line()
    ensures
        byte_width(seq!['\n', '\n']) == 2,
{
    assert(seq!['\n', '\n'].drop_last() =~= seq!['\n']);
    assert(seq!['\n'].drop_last() =~= Seq::<char>::empty());
    assert(byte_width(Seq::<char>::empty()) == 0);
    assert(utf8_width('\n') == 1);
    assert(byte_width(seq!['\n']) == 1);
}

proof fn lemma_kept_nonempty(ps: Seq<Seq<char>>)
    ensures
        forall|i: int| 0 <= i < kept(ps).len() ==> #[trigger] kept(ps)[i].len() > 0,
    decreases ps.len(),
{
    if ps.len() > 0 {
        let k = kept(ps.drop_last());
        lemma_kept_nonempty(ps.drop_last());
        if trim(ps.last()).len() > 0 {
            assert(kept(ps) == k.push(trim(ps.last())));
            assert forall|i: int| 0 <= i < kept(ps).len() implies #[trigger] kept(ps)[i].len() > 0 by {
                if i < k.len() {
                    assert(kept(ps)[i] == k[i]);
                }
            }
        }
    }
}

/// Every group of a packing of non-empty paragraphs is non-empty and joins
/// to a non-empty text.
proof fn lemma_pack_nonempty(ks: Seq<Seq<char>>, max: nat)
    requires
        forall|i: int| 0 <= i < ks.len() ==> #[trigger] ks[i].len() > 0,
    ensures
        forall|i: int| 0 <= i < pack(ks, max).len() ==> #[trigger] pack(ks, max)[i].len() > 0
            && join_blank(pack(ks, max)[i]).len() > 0,
    decreases ks.len(),
{
    if ks.len() > 0 {
        let g = pack(ks.drop_last(), max);
        let p = ks.last();
        assert(p == ks[ks.len() - 1]);
        lemma_pack_nonempty(ks.drop_last(), max);
        if g.len() == 0 {
            assert(pack(ks, max)[0] == seq![p]);
        } else if byte_width(join_blank(g.last())) + byte_width(p) + 2 > max {
            assert forall|i: int| 0 <= i < pack(ks, max).len() implies #[trigger] pack(ks, max)[i].len() > 0
                && join_blank(pack(ks, max)[i]).len() > 0 by {
                if i < g.len() {
                    assert(pack(ks, max)[i] == g[i]);
                } else {
                    assert(pack(ks, max)[i] == seq![p]);
                }
            }
        } else {
            lemma_join_push(g.last(), p);
            assert forall|i: int| 0 <= i < pack(ks, max).len() implies #[trigger] pack(ks, max)[i].len() > 0
                && join_blank(pack(ks, max)[i]).len() > 0 by {
                if i < g.len() - 1 {
                    assert(pack(ks, max)[i] == g[i]);
                } else {
                    assert(pack(ks, max)[i] == g.last().push(p));
                }
            }
        }
    }
}

proof fn lemma_join_push(g: Seq<Seq<char>>, p: Seq<char>)
    requires
        g.len() > 0,
    ensures
        join_blank(g.push(p)) == join_blank(g) + seq!['\n', '\n'] + p,
{
    assert(g.push(p).drop_last() =~= g);
}

/// Appends `v[lo..hi]` to `dst`.
fn append_range(dst: &mut Vec<char>, v: &Vec<char>, lo: usize, hi: usize)
    requires
        lo <= hi <= v.len(),
    ensures
        final(dst)@ == old(dst)@ + v@.subrange(lo as int, hi as int),
{
    let mut i: usize = lo;
    while i < hi
        invariant
            lo <= i <= hi <= v.len(),
            dst@ == old(dst)@ + v@.subrange(lo as int, i as int),
        decreases hi - i,
    {
        assert(v@.subrange(lo as int, i + 1) =~= v@.subrange(lo as int, i as int).push(v@[i as int]));
        dst.push(v[i]);
        i = i + 1;
    }
}

/// Splits `text` into paragraph-aligned segments: paragraphs are packed
/// into a segment, joined by a blank line, while its UTF-8 length stays
/// within `max_chars`; a single paragraph longer than that is kept whole.
/// Blank or empty text gives no segment.
pub fn split_into_chunks(text: &str, max_chars: usize) -> (r: Vec<String>)
    ensures
        r.len() == chunk_texts(text@, max_chars as nat).len(),
        forall|i: int| 0 <= i < r.len() ==> #[trigger] r[i]@ == chunk_texts(text@, max_chars as nat)[i],
{
    let v = chars_of(text);
    let ghost s = v@;
    let ghost max = max_chars as nat;
    let mut chunks: Vec<String> = Vec::new();
    let mut current: Vec<char> = Vec::new();
    let mut cur_w: u128 = 0;
    let mut start: usize = 0;
    let mut done = false;
    let ghost mut seen: Seq<Seq<char>> = seq![];
    while !done
        invariant
            start <= v.len(),
            s == v@,
            max == max_chars as nat,
            done ==> seen == paragraphs(s),
            !done ==> seen + paragraphs_from(s, start as int) == paragraphs(s),
            pack(kept(seen), max).len() == 0 ==> current@.len() == 0 && chunks.len() == 0,
            pack(kept(seen), max).len() > 0 ==> current@ == join_blank(pack(kept(seen), max).last())
                && chunks.len() == pack(kept(seen), max).len() - 1,
            forall|i: int|
                0 <= i < chunks.len() ==> #[trigger] chunks[i]@ == join_blank(pack(kept(seen), max)[i]),
            cur_w == byte_width(current@),
            cur_w <= max || cur_w <= 4 * v.len(),
        decreases v.len() - start + (if done { 0int } else { 1int }),
    {
        let sep = find_separator(&v, start);
        let end: usize = match sep {
            Some(j) => j,
            None => v.len(),
        };
        proof {
            lemma_sep_from(s, start as int);
        }
        let (lo, hi) = trimmed_bounds(&v, start, end);
        let ghost para = s.subrange(start as int, end as int);
        let ghost old_seen = seen;
        let ghost g = pack(kept(old_seen), max);
        proof {
            seen = seen.push(para);
            assert(seen.drop_last() =~= old_seen);
            lemma_kept_nonempty(old_seen);
            lemma_pack_nonempty(kept(old_seen), max);
        }
        if lo < hi {
            let p_w = range_width(&v, lo, hi);
            let ghost t = s.subrange(lo as int, hi as int);
            assert(kept(seen) == kept(old_seen).push(t));
            assert(kept(seen).drop_last() =~= kept(old_seen));
            if current.len() == 0 {
                append_range(&mut current, &v, lo, hi);
                cur_w = p_w;
                proof {
                    if g.len() > 0 {
                        assert(join_blank(g[g.len() - 1]).len() > 0);
                    }
                    assert(current@ =~= t);
                }
            } else if cur_w + p_w + 2 > max_chars as u128 {
                let seg = string_from_chars(current.as_slice());
                chunks.push(seg);
                current = Vec::new();
                append_range(&mut current, &v, lo, hi);
                cur_w = p_w;
                proof {
                    assert(current@ =~= t);
                    let g2 = pack(kept(seen), max);
                    assert(g2 == g.push(seq![t]));
                    assert forall|i: int| 0 <= i < chunks.len() implies #[trigger] chunks[i]@ == join_blank(g2[i]) by {
                        if i < chunks.len() - 1 {
                            assert(g2[i] == g[i]);
                        }
                    }
                }
            } else {
                current.push('\n');
                current.push('\n');
                let ghost before = current@;
                append_range(&mut current, &v, lo, hi);
                proof {
                    lemma_width_blank_line();
                    let cur0 = join_blank(g.last());
                    assert(before =~= cur0 + seq!['\n', '\n']);
                    lemma_width_concat(cur0, seq!['\n', '\n']);
                    lemma_width_concat(before, t);
                    lemma_join_push(g.last(), t);
                    let g2 = pack(kept(seen), max);
                    assert(g2 == g.update(g.len() - 1, g.last().push(t)));
                    assert(current@ =~= join_blank(g2.last()));
                    assert forall|i: int| 0 <= i < chunks.len() implies #[trigger] chunks[i]@ == join_blank(g2[i]) by {
                        assert(g2[i] == g[i]);
                    }
                }
                cur_w = cur_w + 2 + p_w;
            }
        } else {
            assert(kept(seen) == kept(old_seen));
        }
        match sep {
            Some(j) => {
                proof {
                    assert(paragraphs_from(s, start as int) == seq![para] + paragraphs_from(s, j + 2));
                    assert(seen + paragraphs_from(s, j + 2) =~= old_seen + (seq![para] + paragraphs_from(s, j + 2)));
                }
                start = j + 2;
            },
            None => {
                proof {
                    assert(paragraphs_from(s, start as int) == seq![para]);
                    assert(seen =~= old_seen + seq![para]);
                }
                done = true;
            },
        }
    }
    proof {
        lemma_kept_nonempty(seen);
        lemma_pack_nonempty(kept(seen), max);
        let g = pack(kept(seen), max);
        if g.len() > 0 {
            assert(join_blank(g[g.len() - 1]).len() > 0);
        }
    }
    if current.len() > 0 {
        let seg = string_from_chars(current.as_slice());
        chunks.push(seg);
    }
    chunks
}

proof fn lemma_pack_concat(ks: Seq<Seq<char>>, max: nat)
    ensures
        concat_groups(pack(ks, max)) == ks,
    decreases ks.len(),
{
    if ks.len() > 0 {
        let g = pack(ks.drop_last(), max);
        let p = ks.last();
        lemma_pack_concat(ks.drop_last(), max);
        if g.len() == 0 {
            assert(pack(ks, max).drop_last() =~= Seq::<Seq<Seq<char>>>::empty());
            assert(ks.drop_last() =~= Seq::<Seq<char>>::empty());
            assert(ks =~= seq![p]);
        } else if byte_width(join_blank(g.last())) + byte_width(p) + 2 > max {
            assert(pack(ks, max).drop_last() =~= g);
            assert(ks =~= ks.drop_last() + seq![p]);
        } else {
            let g2 = g.update(g.len() - 1, g.last().push(p));
            assert(g2.drop_last() =~= g.drop_last());
            assert(concat_groups(g) == concat_groups(g.drop_last()) + g.last());
            assert(concat_groups(g2) == concat_groups(g.drop_last()) + g.last().push(p));
            assert(ks =~= ks.drop_last().push(p));
            assert(concat_groups(g.drop_last()) + g.last().push(p) =~= (concat_groups(g.drop_last())
                + g.last()).push(p));
        }
    }
}

proof fn lemma_pack_single(ks: Seq<Seq<char>>, max: nat)
    requires
        ks.len() > 0,
        byte_width(join_blank(ks)) <= max,
    ensures
        pack(ks, max) == seq![ks],
    decreases ks.len(),
{
    if ks.len() == 1 {
        assert(ks.drop_last() =~= Seq::<Seq<char>>::empty());
        assert(pack(ks.drop_last(), max).len() == 0);
        assert(seq![ks.last()] =~= ks);
    } else {
        let d = ks.drop_last();
        let p = ks.last();
        lemma_width_blank_line();
        lemma_width_concat(join_blank(d) + seq!['\n', '\n'], p);
        lemma_width_concat(join_blank(d), seq!['\n', '\n']);
        assert(join_blank(ks) == join_blank(d) + seq!['\n', '\n'] + p);
        lemma_pack_single(d, max);
        assert(seq![d].last() == d);
        assert(d.push(p) =~= ks);
        assert(seq![d].update(0, d.push(p)) =~= seq![ks]);
    }
}

/// The segments of any text are its non-empty trimmed paragraphs, in
/// order, grouped and joined by blank lines: no paragraph is lost, split,
/// repeated or moved, and no segment is empty. When the whole text fits in
/// the budget, there is exactly one segment.
pub proof fn lemma_chunks_reassemble(text: Seq<char>, max: nat)
    ensures
        concat_groups(chunk_groups(text, max)) == kept(paragraphs(text)),
        chunk_texts(text, max).len() == chunk_groups(text, max).len(),
        forall|i: int|
            0 <= i < chunk_texts(text, max).len() ==> #[trigger] chunk_texts(text, max)[i]
                == join_blank(chunk_groups(text, max)[i]) && chunk_texts(text, max)[i].len() > 0,
        kept(paragraphs(text)).len() > 0 && byte_width(join_blank(kept(paragraphs(text)))) <= max
            ==> chunk_texts(text, max).len() == 1,
{
    let ks = kept(paragraphs(text));
    lemma_pack_concat(ks, max);
    lemma_kept_nonempty(paragraphs(text));
    lemma_pack_nonempty(ks, max);
    if ks.len() > 0 && byte_width(join_blank(ks)) <= max {
        lemma_pack_single(ks, max);
    }
}

} // verus!
