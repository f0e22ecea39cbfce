//! Receive-side display filter: only complete lines that match a regex are
//! forwarded. Bytes after the last newline wait for more input.

use vstd::prelude::*;

use crate::matcher::{pattern_error, lossy_text, pattern_matches, regex_compile_error, regex_finds_match, utf8_lossy};

verus! {

/// The newline byte that ends a line.
pub const NEWLINE: u8 = 10u8;

/// Whether `line` (newline included) is forwarded under `pattern`.
pub open spec fn line_kept(pattern: Seq<char>, line: Seq<u8>) -> bool {
    regex_finds_match(pattern, utf8_lossy(line))
}

/// `line` if it is forwarded, else nothing.
pub open spec fn kept(pattern: Seq<char>, line: Seq<u8>) -> Seq<u8> {
    if line_kept(pattern, line) {
        line
    } else {
        Seq::empty()
    }
}

/// What the filter forwards when `rest` arrives while `line` is the
/// unfinished line it holds: every line completed within `rest`, if kept.
pub open spec fn forwarded(pattern: Seq<char>, line: Seq<u8>, rest: Seq<u8>) -> Seq<u8>
    decreases rest.len(),
{
    if rest.len() == 0 {
        Seq::empty()
    } else if rest[0] == NEWLINE {
        kept(pattern, line.push(rest[0])) + forwarded(pattern, Seq::empty(), rest.drop_first())
    } else {
        forwarded(pattern, line.push(rest[0]), rest.drop_first())
    }
}

/// The unfinished line the filter holds after `rest` arrives while it held
/// `line`.
pub open spec fn pending_after(line: Seq<u8>, rest: Seq<u8>) -> Seq<u8>
    decreases rest.len(),
{
    if rest.len() == 0 {
        line
    } else if rest[0] == NEWLINE {
        pending_after(Seq::empty(), rest.drop_first())
    } else {
        pending_after(line.push(rest[0]), rest.drop_first())
    }
}

/// A line-buffered regex filter.
pub struct LineFilter {
    pattern: String,
    buffer: Vec<u8>,
}

impl LineFilter {
    #[verifier::type_invariant]
    spec fn compiles(&self) -> bool {
        regex_compile_error(self.pattern@) is None
    }

    /// The pattern the filter matches lines against.
    pub closed spec fn pattern(&self) -> Seq<char> {
        self.pattern@
    }

    /// The bytes received since the last newline.
    pub closed spec fn pending(&self) -> Seq<u8> {
        self.buffer@
    }

    /// A filter for `pattern`, or `None` where the pattern does not compile.
    pub fn new(pattern: &str) -> (r: Option<LineFilter>)
        ensures
            match r {
                Some(f) => {
                    &&& regex_compile_error(pattern@) is None
                    &&& f.pattern() == pattern@
                    &&& f.pending() == Seq::<u8>::empty()
                },
                None => regex_compile_error(pattern@) is Some,
            },
    {
        match pattern_error(pattern) {
            Some(_) => None,
            None => {
                let p = pattern.to_owned();
                Some(LineFilter { pattern: p, buffer: Vec::new() })
            },
        }
    }

    fn keeps(&self, line: &Vec<u8>) -> (b: bool)
        ensures
            b == line_kept(self.pattern(), line@),
    {
        proof {
            use_type_invariant(self);
        }
        let text = lossy_text(line.as_slice());
        pattern_matches(self.pattern.as_str(), text.as_str())
    }

    /// Takes in `data`; every line it completes that matches the pattern is
    /// appended to `out`, newline included.
    pub fn feed(&mut self, data: &[u8], out: &mut Vec<u8>)
        ensures
            final(self).pattern() == old(self).pattern(),
            final(self).pending() == pending_after(old(self).pending(), data@),
            final(out)@ == old(out)@ + forwarded(old(self).pattern(), old(self).pending(), data@),
    {
        proof {
            use_type_invariant(&*self);
        }
        let mut line: Vec<u8> = Vec::new();
        std::mem::swap(&mut line, &mut self.buffer);
        let ghost p = self.pattern();
        let ghost line0 = line@;
        let mut i: usize = 0;
        assert(data@.skip(0) =~= data@);
        while i < data.len()
            invariant
                i <= data.len(),
                self.pattern() == p,
                old(out)@ + forwarded(p, line0, data@) == out@ + forwarded(p, line@, data@.skip(i as int)),
                pending_after(line0, data@) == pending_after(line@, data@.skip(i as int)),
            decreases data.len() - i,
        {
            let b = data[i];
            let ghost rest = data@.skip(i as int);
            assert(rest[0] == b);
            assert(rest.drop_first() =~= data@.skip(i + 1));
            line.push(b);
            if b == NEWLINE {
                if self.keeps(&line) {
                    out.append(&mut line);
                } else {
                    line.clear();
                }
                assert(line@ =~= Seq::<u8>::empty());
            }
            i = i + 1;
        }
        assert(data@.skip(i as int) =~= Seq::<u8>::empty());
        self.buffer = line;
    }

    /// At end of stream: forwards the unfinished line if it is non-empty and
    /// matches, then forgets it.
    pub fn flush_remainder(&mut self, out: &mut Vec<u8>)
        ensures
            final(self).pattern() == old(self).pattern(),
            final(self).pending() == Seq::<u8>::empty(),
            final(out)@ == old(out)@ + (if old(self).pending().len() > 0 {
                kept(old(self).pattern(), old(self).pending())
            } else {
                Seq::empty()
            }),
    {
        proof {
            use_type_invariant(&*self);
        }
        let mut line: Vec<u8> = Vec::new();
        std::mem::swap(&mut line, &mut self.buffer);
        if line.len() > 0 && self.keeps(&line) {
            out.append(&mut line);
        } else {
            assert(old(out)@ + Seq::<u8>::empty() =~= out@);
        }
    }
}

/// Feeding a stream in two pieces forwards the same bytes, and leaves the
/// same unfinished line, as feeding it whole: how the input is chunked never
/// changes what the filter shows.
pub proof fn law_chunking_invariant(pattern: Seq<char>, line: Seq<u8>, a: Seq<u8>, b: Seq<u8>)
    ensures
        forwarded(pattern, line, a + b) == forwarded(pattern, line, a) + forwarded(
            pattern,
            pending_after(line, a),
            b,
        ),
        pending_after(line, a + b) == pending_after(pending_after(line, a), b),
    decreases a.len(),
{
    if a.len() == 0 {
        assert(a + b =~= b);
        assert(forwarded(pattern, line, a) =~= Seq::<u8>::empty());
        assert(Seq::<u8>::empty() + forwarded(pattern, line, b) =~= forwarded(pattern, line, b));
    } else {
        assert((a + b)[0] == a[0]);
        assert((a + b).drop_first() =~= a.drop_first() + b);
        if a[0] == NEWLINE {
            law_chunking_invariant(pattern, Seq::empty(), a.drop_first(), b);
        } else {
            law_chunking_invariant(pattern, line.push(a[0]), a.drop_first(), b);
        }
    }
}

/// The filter forwards whole lines only, and what it holds back never
/// contains a newline: whatever it forwards ends with one, and a remainder
/// that started without a newline stays without one.
pub proof fn law_whole_lines(pattern: Seq<char>, line: Seq<u8>, rest: Seq<u8>)
    ensures
        forwarded(pattern, line, rest).len() > 0 ==> forwarded(pattern, line, rest).last() == NEWLINE,
        !line.contains(NEWLINE) ==> !pending_after(line, rest).contains(NEWLINE),
    decreases rest.len(),
{
    if rest.len() > 0 {
        if rest[0] == NEWLINE {
            law_whole_lines(pattern, Seq::empty(), rest.drop_first());
            let k = kept(pattern, line.push(rest[0]));
            let f = forwarded(pattern, Seq::empty(), rest.drop_first());
            if f.len() == 0 {
                assert(k + f =~= k);
            } else {
                assert((k + f).last() == f.last());
            }
        } else {
            law_whole_lines(pattern, line.push(rest[0]), rest.drop_first());
            if !line.contains(NEWLINE) {
                assert forall|j: int| 0 <= j < line.push(rest[0]).len() implies line.push(rest[0])[j] != NEWLINE by {
                    if j < line.len() {
                        assert(line[j] == line.push(rest[0])[j]);
                    }
                }
            }
        }
    }
}

/// How many bytes of `s` come before its first newline (all of them when
/// there is none).
pub open spec fn first_newline(s: Seq<u8>) -> nat
    decreases s.len(),
{
    if s.len() == 0 {
        0
    } else if s[0] == NEWLINE {
        0
    } else {
        1 + first_newline(s.drop_first())
    }
}

/// `d` cut after each newline: every piece but the last ends with its only
/// newline, and a final piece without a newline is kept if non-empty.
pub open spec fn split_lines(d: Seq<u8>) -> Seq<Seq<u8>>
    decreases d.len(),
{
    if d.len() == 0 {
        Seq::empty()
    } else {
        let i = first_newline(d);
        if i < d.len() {
            seq![d.take(i + 1 as int)] + split_lines(d.skip(i + 1 as int))
        } else {
            seq![d]
        }
    }
}

/// The pieces of `pieces` that match, joined in order.
pub open spec fn kept_pieces(pattern: Seq<char>, pieces: Seq<Seq<u8>>) -> Seq<u8>
    decreases pieces.len(),
{
    if pieces.len() == 0 {
        Seq::empty()
    } else {
        kept(pattern, pieces[0]) + kept_pieces(pattern, pieces.drop_first())
    }
}

/// All of `pieces`, joined in order.
pub open spec fn joined(pieces: Seq<Seq<u8>>) -> Seq<u8>
    decreases pieces.len(),
{
    if pieces.len() == 0 {
        Seq::empty()
    } else {
        pieces[0] + joined(pieces.drop_first())
    }
}

/// What `flush_remainder` forwards of the unfinished line `rest`.
pub open spec fn flushed(pattern: Seq<char>, rest: Seq<u8>) -> Seq<u8> {
    if rest.len() > 0 {
        kept(pattern, rest)
    } else {
        Seq::empty()
    }
}

proof fn lemma_first_newline_bounds(s: Seq<u8>)
    ensures
        first_newline(s) <= s.len(),
        forall|j: int| 0 <= j < first_newline(s) ==> s[j] != NEWLINE,
        first_newline(s) < s.len() ==> s[first_newline(s) as int] == NEWLINE,
    decreases s.len(),
{
    if s.len() > 0 && s[0] != NEWLINE {
        lemma_first_newline_bounds(s.drop_first());
        assert forall|j: int| 0 <= j < first_newline(s) implies s[j] != NEWLINE by {
            if j > 0 {
                assert(s[j] == s.drop_first()[j - 1]);
            }
        }
    }
}

proof fn lemma_first_newline_after_line(line: Seq<u8>, d: Seq<u8>)
    requires
        !line.contains(NEWLINE),
    ensures
        first_newline(line + d) == line.len() + first_newline(d),
    decreases line.len(),
{
    if line.len() > 0 {
        assert((line + d)[0] == line[0]);
        assert((line + d).drop_first() =~= line.drop_first() + d);
        assert(!line.drop_first().contains(NEWLINE)) by {
            if line.drop_first().contains(NEWLINE) {
                let k = choose|k: int| 0 <= k < line.drop_first().len() && line.drop_first()[k] == NEWLINE;
                assert(line[k + 1] == NEWLINE);
            }
        }
        lemma_first_newline_after_line(line.drop_first(), d);
    } else {
        assert(line + d =~= d);
    }
}

proof fn lemma_split_from_line(pattern: Seq<char>, line: Seq<u8>, d: Seq<u8>)
    requires
        !line.contains(NEWLINE),
    ensures
        forwarded(pattern, line, d) + flushed(pattern, pending_after(line, d)) == kept_pieces(
            pattern,
            split_lines(line + d),
        ),
    decreases d.len(),
{
    if d.len() == 0 {
        assert(line + d =~= line);
        assert(forwarded(pattern, line, d) =~= Seq::<u8>::empty());
        if line.len() > 0 {
            lemma_first_newline_after_line(line, d);
            assert(split_lines(line) =~= seq![line]);
            assert(kept_pieces(pattern, seq![line]) =~= kept(pattern, line) + kept_pieces(
                pattern,
                seq![line].drop_first(),
            ));
            assert(seq![line].drop_first() =~= Seq::<Seq<u8>>::empty());
            assert(kept_pieces(pattern, split_lines(line)) =~= kept(pattern, line));
        } else {
            assert(split_lines(line) =~= Seq::<Seq<u8>>::empty());
        }
        assert(Seq::<u8>::empty() + flushed(pattern, line) =~= flushed(pattern, line));
    } else if d[0] == NEWLINE {
        let whole = line + d;
        lemma_first_newline_after_line(line, d);
        assert(first_newline(d) == 0);
        assert(whole.take(line.len() + 1 as int) =~= line.push(d[0]));
        assert(whole.skip(line.len() + 1 as int) =~= d.drop_first());
        let pieces = split_lines(whole);
        assert(pieces =~= seq![line.push(d[0])] + split_lines(d.drop_first()));
        assert(pieces[0] == line.push(d[0]));
        assert(pieces.drop_first() =~= split_lines(d.drop_first()));
        lemma_split_from_line(pattern, Seq::empty(), d.drop_first());
        assert(Seq::<u8>::empty() + d.drop_first() =~= d.drop_first());
        let a = kept(pattern, line.push(d[0]));
        let b = forwarded(pattern, Seq::empty(), d.drop_first());
        let c = flushed(pattern, pending_after(Seq::empty(), d.drop_first()));
        assert(a + b + c =~= a + (b + c));
    } else {
        assert(line.push(d[0]) + d.drop_first() =~= line + d);
        assert(!line.push(d[0]).contains(NEWLINE)) by {
            if line.push(d[0]).contains(NEWLINE) {
                let k = choose|k: int| 0 <= k < line.push(d[0]).len() && line.push(d[0])[k] == NEWLINE;
                if k < line.len() {
                    assert(line[k] == NEWLINE);
                }
            }
        }
        lemma_split_from_line(pattern, line.push(d[0]), d.drop_first());
    }
}

proof fn lemma_split_lines_shape(d: Seq<u8>)
    ensures
        joined(split_lines(d)) == d,
        forall|k: int| 0 <= k < split_lines(d).len() ==> (#[trigger] split_lines(d)[k]).len() > 0,
        forall|k: int| 0 <= k < split_lines(d).len() - 1 ==> (#[trigger] split_lines(d)[k]).last() == NEWLINE,
        forall|k: int, j: int|
            0 <= k < split_lines(d).len() && 0 <= j < split_lines(d)[k].len() - 1 ==> #[trigger] split_lines(
                d,
            )[k][j] != NEWLINE,
    decreases d.len(),
{
    if d.len() > 0 {
        lemma_first_newline_bounds(d);
        let i = first_newline(d);
        if i < d.len() {
            let head = d.take(i + 1 as int);
            let rest = d.skip(i + 1 as int);
            lemma_split_lines_shape(rest);
            let ps = split_lines(d);
            assert(ps =~= seq![head] + split_lines(rest));
            assert(ps.drop_first() =~= split_lines(rest));
            assert(ps[0] == head);
            assert(joined(ps) == head + joined(split_lines(rest)));
            assert(head + rest =~= d);
            assert forall|k: int| 0 <= k < ps.len() implies (#[trigger] ps[k]).len() > 0 by {
                if k > 0 {
                    assert(ps[k] == split_lines(rest)[k - 1]);
                }
            }
            assert forall|k: int| 0 <= k < ps.len() - 1 implies (#[trigger] ps[k]).last() == NEWLINE by {
                if k > 0 {
                    assert(ps[k] == split_lines(rest)[k - 1]);
                }
            }
            assert forall|k: int, j: int| 0 <= k < ps.len() && 0 <= j < ps[k].len() - 1 implies #[trigger] ps[k][j]
                != NEWLINE by {
                if k > 0 {
                    assert(ps[k] == split_lines(rest)[k - 1]);
                } else {
                    assert(ps[0][j] == d[j]);
                }
            }
        } else {
            let ps = split_lines(d);
            assert(ps =~= seq![d]);
            assert(ps.drop_first() =~= Seq::<Seq<u8>>::empty());
            assert(ps[0] == d);
            assert(joined(ps) == d + joined(Seq::<Seq<u8>>::empty()));
            assert(d + Seq::<u8>::empty() =~= d);
            assert forall|k: int, j: int| 0 <= k < ps.len() && 0 <= j < ps[k].len() - 1 implies #[trigger] ps[k][j]
                != NEWLINE by {
                assert(ps[k] == d);
            }
        }
    }
}

/// What a fresh filter shows of a stream `d`, once fed and flushed: `d` is
/// cut after each newline (a final piece without one counts if non-empty),
/// and exactly the pieces whose text matches are shown, in order.
pub proof fn law_shows_matching_pieces(pattern: Seq<char>, d: Seq<u8>)
    ensures
        forwarded(pattern, Seq::empty(), d) + flushed(pattern, pending_after(Seq::empty(), d)) == kept_pieces(
            pattern,
            split_lines(d),
        ),
        joined(split_lines(d)) == d,
        forall|k: int| 0 <= k < split_lines(d).len() ==> (#[trigger] split_lines(d)[k]).len() > 0,
        forall|k: int| 0 <= k < split_lines(d).len() - 1 ==> (#[trigger] split_lines(d)[k]).last() == NEWLINE,
        forall|k: int, j: int|
            0 <= k < split_lines(d).len() && 0 <= j < split_lines(d)[k].len() - 1 ==> #[trigger] split_lines(
                d,
            )[k][j] != NEWLINE,
{
    lemma_split_from_line(pattern, Seq::empty(), d);
    assert(Seq::<u8>::empty() + d =~= d);
    lemma_split_lines_shape(d);
}

/// Holds of a piece of the stream whose lossy-decoded text the regex
/// compiled from `pattern` matches.
pub open spec fn text_matches(pattern: Seq<char>) -> spec_fn(Seq<u8>) -> bool {
    |piece: Seq<u8>| regex_finds_match(pattern, utf8_lossy(piece))
}

proof fn lemma_joined_concat(a: Seq<Seq<u8>>, b: Seq<Seq<u8>>)
    ensures
        joined(a + b) == joined(a) + joined(b),
    decreases a.len(),
{
    if a.len() == 0 {
        assert(a + b =~= b);
        assert(joined(a) + joined(b) =~= joined(b));
    } else {
        assert((a + b)[0] == a[0]);
        assert((a + b).drop_first() =~= a.drop_first() + b);
        lemma_joined_concat(a.drop_first(), b);
        assert(joined(a + b) =~= joined(a) + joined(b));
    }
}

proof fn lemma_kept_pieces_filter(pattern: Seq<char>, ps: Seq<Seq<u8>>)
    ensures
        kept_pieces(pattern, ps) == joined(ps.filter(text_matches(pattern))),
    decreases ps.len(),
{
    reveal_with_fuel(Seq::<_>::filter, 2);
    let pred = text_matches(pattern);
    if ps.len() == 0 {
        assert(ps.filter(pred) =~= Seq::<Seq<u8>>::empty());
    } else {
        let head = seq![ps[0]];
        let rest = ps.drop_first();
        assert(head + rest =~= ps);
        Seq::filter_distributes_over_add(head, rest, pred);
        lemma_kept_pieces_filter(pattern, rest);
        lemma_joined_concat(head.filter(pred), rest.filter(pred));
        assert(head.drop_last() =~= Seq::<Seq<u8>>::empty());
        assert(head.drop_last().filter(pred) =~= Seq::<Seq<u8>>::empty());
        if pred(ps[0]) {
            assert(head.filter(pred) =~= seq![ps[0]]);
            let one = seq![ps[0]];
            assert(one[0] == ps[0]);
            assert(one.drop_first() =~= Seq::<Seq<u8>>::empty());
            assert(joined(one) == one[0] + joined(one.drop_first()));
            assert(joined(one) =~= ps[0]);
        } else {
            assert(head.filter(pred) =~= Seq::<Seq<u8>>::empty());
            assert(kept(pattern, ps[0]) =~= Seq::<u8>::empty());
            assert(Seq::<u8>::empty() + joined(rest.filter(pred)) =~= joined(rest.filter(pred)));
        }
    }
}

/// What the filter shows is decided by the regex alone: a line is forwarded
/// whole exactly when the regex matches its lossy-decoded text (a blank line
/// included), and a fresh filter fed a stream `d` and flushed shows the
/// matching pieces of `d`, cut after each newline, joined in order.
pub proof fn law_forwards_exactly_matching_lines(pattern: Seq<char>, line: Seq<u8>, d: Seq<u8>)
    ensures
        regex_finds_match(pattern, utf8_lossy(line)) ==> kept(pattern, line) == line,
        !regex_finds_match(pattern, utf8_lossy(line)) ==> kept(pattern, line).len() == 0,
        forwarded(pattern, Seq::empty(), d) + flushed(pattern, pending_after(Seq::empty(), d)) == joined(
            split_lines(d).filter(text_matches(pattern)),
        ),
{
    law_shows_matching_pieces(pattern, d);
    lemma_kept_pieces_filter(pattern, split_lines(d));
}

} // verus!
