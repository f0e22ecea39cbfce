//! xxd-style dump of one chunk of traffic: a header line naming the
//! direction and size, then sixteen bytes per line as hex and as ASCII.

use vstd::prelude::*;

use crate::instrument::{arrow_text, Direction};
use crate::text::{decimal, hex_digit, hex_digit_char, push_char, push_decimal};

verus! {

/// Bytes shown per dump line.
pub const BYTES_PER_LINE: usize = 16;

/// Width the hex column is padded to (sixteen bytes, space separated).
pub const HEX_WIDTH: usize = 47;

/// A byte as two lowercase hex digits.
pub open spec fn hex_pair(b: u8) -> Seq<char> {
    seq![hex_digit_char((b / 16) as nat), hex_digit_char((b % 16) as nat)]
}

/// The bytes of `chunk` in hex, separated by single spaces.
pub open spec fn hex_column(chunk: Seq<u8>) -> Seq<char>
    decreases chunk.len(),
{
    if chunk.len() == 0 {
        Seq::empty()
    } else if chunk.len() == 1 {
        hex_pair(chunk[0])
    } else {
        hex_column(chunk.drop_last()) + seq![' '] + hex_pair(chunk.last())
    }
}

/// How a byte shows in the ASCII column: printable ASCII as itself, anything
/// else as `.`.
pub open spec fn shown_char(b: u8) -> char {
    if 0x20 <= b && b <= 0x7e {
        b as char
    } else {
        '.'
    }
}

/// The ASCII column of `chunk`.
pub open spec fn ascii_column(chunk: Seq<u8>) -> Seq<char> {
    Seq::new(chunk.len(), |i: int| shown_char(chunk[i]))
}

/// `n` spaces.
pub open spec fn spaces(n: nat) -> Seq<char> {
    Seq::new(n, |i: int| ' ')
}

/// `s` padded with spaces on the right to `width` characters.
pub open spec fn pad_right(s: Seq<char>, width: nat) -> Seq<char> {
    if s.len() >= width {
        s
    } else {
        s + spaces((width - s.len()) as nat)
    }
}

/// One dump line for a chunk of at most sixteen bytes.
pub open spec fn dump_line(chunk: Seq<u8>) -> Seq<char> {
    "    "@ + pad_right(hex_column(chunk), HEX_WIDTH as nat) + "  "@ + ascii_column(chunk) + seq!['\n']
}

/// The dump lines for `buf`, sixteen bytes per line.
pub open spec fn dump_lines(buf: Seq<u8>) -> Seq<char>
    decreases buf.len(),
{
    if buf.len() == 0 {
        Seq::empty()
    } else if buf.len() <= BYTES_PER_LINE {
        dump_line(buf)
    } else {
        dump_line(buf.take(BYTES_PER_LINE as int)) + dump_lines(buf.skip(BYTES_PER_LINE as int))
    }
}

/// The full dump of `buf` moving in direction `dir`.
pub open spec fn dump_spec(dir: Direction, buf: Seq<u8>) -> Seq<char> {
    arrow_text(dir) + " "@ + decimal(buf.len()) + " bytes\n"@ + dump_lines(buf)
}

proof fn lemma_hex_column_len(chunk: Seq<u8>)
    requires
        chunk.len() > 0,
    ensures
        hex_column(chunk).len() == 3 * chunk.len() - 1,
    decreases chunk.len(),
{
    if chunk.len() > 1 {
        lemma_hex_column_len(chunk.drop_last());
    }
}

fn push_hex_pair(out: &mut String, b: u8)
    ensures
        final(out)@ == old(out)@ + hex_pair(b),
{
    push_char(out, hex_digit(b / 16));
    push_char(out, hex_digit(b % 16));
}

fn shown(b: u8) -> (c: char)
    ensures
        c == shown_char(b),
{
    if 0x20 <= b && b <= 0x7e {
        b as char
    } else {
        '.'
    }
}

/// Appends the dump line for `buf[start..end]`.
fn push_dump_line(out: &mut String, buf: &[u8], start: usize, end: usize)
    requires
        start < end <= buf@.len(),
        end - start <= BYTES_PER_LINE,
    ensures
        final(out)@ == old(out)@ + dump_line(buf@.subrange(start as int, end as int)),
{
    let ghost chunk = buf@.subrange(start as int, end as int);
    let mut hex = String::new();
    push_hex_pair(&mut hex, buf[start]);
    let mut j: usize = start + 1;
    assert(hex_column(buf@.subrange(start as int, j as int)) =~= hex_pair(buf@[start as int]));
    while j < end
        invariant
            start < j <= end,
            end <= buf@.len(),
            hex@ == hex_column(buf@.subrange(start as int, j as int)),
        decreases end - j,
    {
        push_char(&mut hex, ' ');
        push_hex_pair(&mut hex, buf[j]);
        assert(buf@.subrange(start as int, j + 1).drop_last() =~= buf@.subrange(start as int, j as int));
        assert(hex@ =~= hex_column(buf@.subrange(start as int, j + 1)));
        j = j + 1;
    }
    proof {
        lemma_hex_column_len(chunk);
    }
    let used: usize = 3 * (end - start) - 1;
    let mut k: usize = used;
    let ghost base = hex@;
    while k < HEX_WIDTH
        invariant
            used <= k <= HEX_WIDTH,
            hex@ == base + spaces((k - used) as nat),
        decreases HEX_WIDTH - k,
    {
        push_char(&mut hex, ' ');
        k = k + 1;
        assert(hex@ =~= base + spaces((k - used) as nat));
    }
    assert(hex@ =~= pad_right(hex_column(chunk), HEX_WIDTH as nat));
    let ghost start_out = out@;
    out.append("    ");
    out.append(hex.as_str());
    out.append("  ");
    let mut m: usize = start;
    let ghost before = out@;
    while m < end
        invariant
            start <= m <= end,
            end <= buf@.len(),
            out@ == before + ascii_column(buf@.subrange(start as int, m as int)),
        decreases end - m,
    {
        push_char(out, shown(buf[m]));
        m = m + 1;
        assert(out@ =~= before + ascii_column(buf@.subrange(start as int, m as int)));
    }
    push_char(out, '\n');
    assert(out@ =~= start_out + dump_line(chunk));
}

/// The hex dump of `buf` moving in direction `dir`: a header naming the
/// direction and byte count, then one line per sixteen bytes.
pub fn hexdump_text(dir: Direction, buf: &[u8]) -> (r: String)
    ensures
        r@ == dump_spec(dir, buf@),
{
    let mut out = String::new();
    out.append(dir.arrow());
    out.append(" ");
    push_decimal(&mut out, buf.len() as u128);
    out.append(" bytes\n");
    let ghost header = out@;
    let mut pos: usize = 0;
    assert(buf@.skip(0) =~= buf@);
    while pos < buf.len()
        invariant
            pos <= buf@.len(),
            header + dump_lines(buf@) == out@ + dump_lines(buf@.skip(pos as int)),
        decreases buf@.len() - pos,
    {
        let rest = buf.len() - pos;
        let ghost tail = buf@.skip(pos as int);
        if rest <= BYTES_PER_LINE {
            push_dump_line(&mut out, buf, pos, buf.len());
            assert(buf@.subrange(pos as int, buf@.len() as int) =~= tail);
            assert(buf@.skip(buf@.len() as int) =~= Seq::<u8>::empty());
            pos = buf.len();
        } else {
            let end = pos + BYTES_PER_LINE;
            push_dump_line(&mut out, buf, pos, end);
            assert(buf@.subrange(pos as int, end as int) =~= tail.take(BYTES_PER_LINE as int));
            assert(tail.skip(BYTES_PER_LINE as int) =~= buf@.skip(end as int));
            pos = end;
        }
    }
    assert(buf@.skip(pos as int) =~= Seq::<u8>::empty());
    out
}

/// Holds of the newline character.
pub open spec fn is_newline(c: char) -> bool {
    c == '\n'
}

/// How many newlines `s` holds.
pub open spec fn newline_count(s: Seq<char>) -> nat {
    s.filter(|c: char| is_newline(c)).len()
}

/// How many dump lines `len` bytes take: one per started group of sixteen.
pub open spec fn line_count(len: nat) -> nat {
    (len + 15) / 16
}

/// The `i`-th group of sixteen bytes of `buf` (the last may be shorter).
pub open spec fn chunk(buf: Seq<u8>, i: int) -> Seq<u8> {
    buf.subrange(16 * i, if 16 * i + 16 <= buf.len() { 16 * i + 16 } else { buf.len() as int })
}

/// Lines joined in order.
pub open spec fn joined_lines(ls: Seq<Seq<char>>) -> Seq<char>
    decreases ls.len(),
{
    if ls.len() == 0 {
        Seq::empty()
    } else {
        ls[0] + joined_lines(ls.drop_first())
    }
}

proof fn lemma_no_newline_count(s: Seq<char>)
    requires
        forall|i: int| 0 <= i < s.len() ==> s[i] != '\n',
    ensures
        newline_count(s) == 0,
    decreases s.len(),
{
    reveal_with_fuel(Seq::<_>::filter, 1);
    if s.len() > 0 {
        let t = s.drop_last();
        assert forall|i: int| 0 <= i < t.len() implies t[i] != '\n' by {
            assert(t[i] == s[i]);
        }
        lemma_no_newline_count(t);
        assert(s.last() == s[s.len() - 1]);
    }
}

proof fn lemma_count_concat(a: Seq<char>, b: Seq<char>)
    ensures
        newline_count(a + b) == newline_count(a) + newline_count(b),
{
    Seq::filter_distributes_over_add(a, b, |c: char| is_newline(c));
}

proof fn lemma_hex_digit_not_newline(d: nat)
    requires
        d < 16,
    ensures
        hex_digit_char(d) != '\n',
{
}

proof fn lemma_hex_column_no_newline(c: Seq<u8>)
    ensures
        forall|i: int| 0 <= i < hex_column(c).len() ==> hex_column(c)[i] != '\n',
    decreases c.len(),
{
    if c.len() > 1 {
        lemma_hex_column_no_newline(c.drop_last());
    }
    if c.len() > 0 {
        let b = c.last();
        lemma_hex_digit_not_newline((b / 16) as nat);
        lemma_hex_digit_not_newline((b % 16) as nat);
        lemma_hex_digit_not_newline((c[0] / 16) as nat);
        lemma_hex_digit_not_newline((c[0] % 16) as nat);
        if c.len() > 1 {
            let a = hex_column(c.drop_last());
            let t = a + seq![' '] + hex_pair(b);
            assert forall|i: int| 0 <= i < t.len() implies t[i] != '\n' by {
                if i < a.len() {
                    assert(t[i] == a[i]);
                }
            }
        }
    }
}

proof fn lemma_dump_line_one_newline(c: Seq<u8>)
    ensures
        newline_count(dump_line(c)) == 1,
{
    reveal_strlit("    ");
    reveal_strlit("  ");
    lemma_hex_column_no_newline(c);
    let h = pad_right(hex_column(c), HEX_WIDTH as nat);
    assert forall|i: int| 0 <= i < h.len() implies h[i] != '\n' by {
        if i >= hex_column(c).len() {
            assert(h[i] == ' ');
        }
    }
    let a = ascii_column(c);
    assert forall|i: int| 0 <= i < a.len() implies a[i] != '\n' by {
        assert(a[i] == shown_char(c[i]));
    }
    let front = "    "@ + h + "  "@ + a;
    assert forall|i: int| 0 <= i < front.len() implies front[i] != '\n' by {
        if i < 4 {
        } else if i < 4 + h.len() {
            assert(front[i] == h[i - 4]);
        } else if i < 6 + h.len() {
        } else {
            assert(front[i] == a[i - 6 - h.len()]);
        }
    }
    lemma_no_newline_count(front);
    lemma_count_concat(front, seq!['\n']);
    reveal_with_fuel(Seq::<_>::filter, 2);
    assert(seq!['\n'].drop_last() =~= Seq::<char>::empty());
}

/// The dump of `buf` has one line per started group of sixteen bytes, and
/// the `i`-th line shows the `i`-th group: no line is missing, repeated or
/// added, for any length, a multiple of sixteen included.
pub proof fn law_one_line_per_sixteen_bytes(buf: Seq<u8>)
    ensures
        dump_lines(buf) == joined_lines(Seq::new(line_count(buf.len()), |i: int| dump_line(chunk(buf, i)))),
        newline_count(dump_lines(buf)) == line_count(buf.len()),
    decreases buf.len(),
{
    let n = line_count(buf.len());
    let ls = Seq::new(n, |i: int| dump_line(chunk(buf, i)));
    if buf.len() == 0 {
        assert(ls =~= Seq::<Seq<char>>::empty());
        reveal_with_fuel(Seq::<_>::filter, 1);
    } else if buf.len() <= BYTES_PER_LINE {
        assert(n == 1);
        assert(chunk(buf, 0) =~= buf);
        assert(ls[0] == dump_line(buf));
        assert(ls.drop_first() =~= Seq::<Seq<char>>::empty());
        assert(joined_lines(ls) == ls[0] + joined_lines(ls.drop_first()));
        assert(joined_lines(ls) =~= dump_line(buf));
        lemma_dump_line_one_newline(buf);
    } else {
        let rest = buf.skip(16);
        law_one_line_per_sixteen_bytes(rest);
        assert(line_count(rest.len()) + 1 == n);
        let rs = Seq::new(line_count(rest.len()), |i: int| dump_line(chunk(rest, i)));
        assert forall|i: int| 0 <= i < rs.len() implies #[trigger] ls.drop_first()[i] == rs[i] by {
            assert(chunk(buf, i + 1) =~= chunk(rest, i));
        }
        assert(ls.drop_first() =~= rs);
        assert(chunk(buf, 0) =~= buf.take(16));
        assert(joined_lines(ls) == ls[0] + joined_lines(ls.drop_first()));
        lemma_dump_line_one_newline(buf.take(16));
        lemma_count_concat(dump_line(buf.take(16)), dump_lines(rest));
    }
}

} // verus!
