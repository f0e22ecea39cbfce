//! JSON-lines event records: one connect, disconnect, data or error event
//! per line, so the log can be followed while a connection is live.

use vstd::prelude::*;

use crate::instrument::{label_text, Direction};
use crate::text::{chars_of, decimal, hex_digit, hex_digit_char, push_char, push_decimal};

verus! {

/// How one character is written inside a JSON string.
pub open spec fn escape_char(c: char) -> Seq<char> {
    if c == '"' {
        seq!['\\', '"']
    } else if c == '\\' {
        seq!['\\', '\\']
    } else if c == '\n' {
        seq!['\\', 'n']
    } else if c == '\r' {
        seq!['\\', 'r']
    } else if c == '\t' {
        seq!['\\', 't']
    } else if (c as u32) < 0x20 {
        seq!['\\', 'u', '0', '0', hex_digit_char((c as u32 / 16) as nat), hex_digit_char((c as u32 % 16) as nat)]
    } else {
        seq![c]
    }
}

/// `s` escaped for use inside a JSON string.
pub open spec fn escape_spec(s: Seq<char>) -> Seq<char>
    decreases s.len(),
{
    if s.len() == 0 {
        Seq::empty()
    } else {
        escape_spec(s.drop_last()) + escape_char(s.last())
    }
}

/// Escapes `s` for use inside a JSON string.
pub fn json_escape(s: &str) -> (r: String)
    ensures
        r@ == escape_spec(s@),
{
    let cs = chars_of(s);
    let mut out = String::new();
    let mut i: usize = 0;
    while i < cs.len()
        invariant
            i <= cs@.len(),
            out@ == escape_spec(cs@.take(i as int)),
        decreases cs@.len() - i,
    {
        let c = cs[i];
        if c == '"' {
            push_char(&mut out, '\\');
            push_char(&mut out, '"');
        } else if c == '\\' {
            push_char(&mut out, '\\');
            push_char(&mut out, '\\');
        } else if c == '\n' {
            push_char(&mut out, '\\');
            push_char(&mut out, 'n');
        } else if c == '\r' {
            push_char(&mut out, '\\');
            push_char(&mut out, 'r');
        } else if c == '\t' {
            push_char(&mut out, '\\');
            push_char(&mut out, 't');
        } else if (c as u32) < 0x20 {
            let v: u32 = c as u32;
            push_char(&mut out, '\\');
            push_char(&mut out, 'u');
            push_char(&mut out, '0');
            push_char(&mut out, '0');
            push_char(&mut out, hex_digit((v / 16) as u8));
            push_char(&mut out, hex_digit((v % 16) as u8));
        } else {
            push_char(&mut out, c);
        }
        assert(cs@.take(i + 1).drop_last() =~= cs@.take(i as int));
        assert(out@ =~= escape_spec(cs@.take(i + 1)));
        i = i + 1;
    }
    assert(cs@.take(i as int) =~= cs@);
    out
}

/// No character of an escaped string is a control character, so escaped
/// text can never break a record across lines.
pub proof fn law_escape_has_no_control_chars(s: Seq<char>)
    ensures
        forall|i: int| 0 <= i < escape_spec(s).len() ==> (#[trigger] escape_spec(s)[i] as u32) >= 0x20,
    decreases s.len(),
{
    if s.len() > 0 {
        law_escape_has_no_control_chars(s.drop_last());
        let a = escape_spec(s.drop_last());
        let b = escape_char(s.last());
        assert forall|i: int| 0 <= i < b.len() implies (#[trigger] b[i] as u32) >= 0x20 by {
            let c = s.last();
            let v = c as u32;
            if !(c == '"' || c == '\\' || c == '\n' || c == '\r' || c == '\t') && v < 0x20 && i >= 4 {
                assert(v / 16 < 16 && v % 16 < 16);
            }
        }
        assert forall|i: int| 0 <= i < (a + b).len() implies ((#[trigger] (a + b)[i]) as u32) >= 0x20 by {
            if i < a.len() {
                assert((a + b)[i] == a[i]);
            } else {
                assert((a + b)[i] == b[i - a.len()]);
            }
        }
    }
}

/// The record for a peer connecting.
pub open spec fn connect_record(ts: nat, peer: Seq<char>) -> Seq<char> {
    "{\"ts\":"@ + decimal(ts) + ",\"event\":\"connect\",\"peer\":\""@ + escape_spec(peer) + "\"}"@
}

/// The record for a peer disconnecting.
pub open spec fn disconnect_record(ts: nat, peer: Seq<char>) -> Seq<char> {
    "{\"ts\":"@ + decimal(ts) + ",\"event\":\"disconnect\",\"peer\":\""@ + escape_spec(peer) + "\"}"@
}

/// The record for `n` bytes moving in direction `dir`.
pub open spec fn data_record(ts: nat, dir: Direction, n: nat) -> Seq<char> {
    "{\"ts\":"@ + decimal(ts) + ",\"event\":\"data\",\"direction\":\""@ + label_text(dir) + "\",\"bytes\":"@
        + decimal(n) + "}"@
}

/// The record for an error with message `msg`.
pub open spec fn error_record(ts: nat, msg: Seq<char>) -> Seq<char> {
    "{\"ts\":"@ + decimal(ts) + ",\"event\":\"error\",\"message\":\""@ + escape_spec(msg) + "\"}"@
}

/// The connect record, stamped `ts` milliseconds after the epoch.
pub fn connect_event(ts: u128, peer: &str) -> (r: String)
    ensures
        r@ == connect_record(ts as nat, peer@),
{
    let mut r = "{\"ts\":".to_owned();
    push_decimal(&mut r, ts);
    r.append(",\"event\":\"connect\",\"peer\":\"");
    let e = json_escape(peer);
    r.append(e.as_str());
    r.append("\"}");
    r
}

/// The disconnect record, stamped `ts` milliseconds after the epoch.
pub fn disconnect_event(ts: u128, peer: &str) -> (r: String)
    ensures
        r@ == disconnect_record(ts as nat, peer@),
{
    let mut r = "{\"ts\":".to_owned();
    push_decimal(&mut r, ts);
    r.append(",\"event\":\"disconnect\",\"peer\":\"");
    let e = json_escape(peer);
    r.append(e.as_str());
    r.append("\"}");
    r
}

/// The data record, stamped `ts` milliseconds after the epoch.
pub fn data_event(ts: u128, dir: Direction, n: usize) -> (r: String)
    ensures
        r@ == data_record(ts as nat, dir, n as nat),
{
    let mut r = "{\"ts\":".to_owned();
    push_decimal(&mut r, ts);
    r.append(",\"event\":\"data\",\"direction\":\"");
    r.append(dir.label());
    r.append("\",\"bytes\":");
    push_decimal(&mut r, n as u128);
    r.append("}");
    r
}

/// The error record, stamped `ts` milliseconds after the epoch.
pub fn error_event(ts: u128, msg: &str) -> (r: String)
    ensures
        r@ == error_record(ts as nat, msg@),
{
    let mut r = "{\"ts\":".to_owned();
    push_decimal(&mut r, ts);
    r.append(",\"event\":\"error\",\"message\":\"");
    let e = json_escape(msg);
    r.append(e.as_str());
    r.append("\"}");
    r
}

/// No character of `s` is a control character (so none is a newline).
pub open spec fn printable(s: Seq<char>) -> bool {
    forall|i: int| 0 <= i < s.len() ==> (#[trigger] s[i] as u32) >= 0x20
}

proof fn lemma_printable_concat(a: Seq<char>, b: Seq<char>)
    requires
        printable(a),
        printable(b),
    ensures
        printable(a + b),
{
    assert forall|i: int| 0 <= i < (a + b).len() implies ((#[trigger] (a + b)[i]) as u32) >= 0x20 by {
        if i < a.len() {
            assert((a + b)[i] == a[i]);
        } else {
            assert((a + b)[i] == b[i - a.len()]);
        }
    }
}

proof fn lemma_decimal_printable(n: nat)
    ensures
        printable(decimal(n)),
    decreases n,
{
    if n >= 10 {
        lemma_decimal_printable(n / 10);
        let d = decimal(n / 10);
        assert forall|i: int| 0 <= i < decimal(n).len() implies (#[trigger] decimal(n)[i] as u32) >= 0x20 by {
            if i < d.len() {
                assert(decimal(n)[i] == d[i]);
            }
        }
    }
}

proof fn lemma_literals_printable()
    ensures
        printable("{\"ts\":"@),
        printable(",\"event\":\"connect\",\"peer\":\""@),
        printable(",\"event\":\"disconnect\",\"peer\":\""@),
        printable(",\"event\":\"data\",\"direction\":\""@),
        printable("\",\"bytes\":"@),
        printable(",\"event\":\"error\",\"message\":\""@),
        printable("\"}"@),
        printable("}"@),
        printable("send"@),
        printable("recv"@),
{
    reveal_strlit("{\"ts\":");
    reveal_strlit(",\"event\":\"connect\",\"peer\":\"");
    reveal_strlit(",\"event\":\"disconnect\",\"peer\":\"");
    reveal_strlit(",\"event\":\"data\",\"direction\":\"");
    reveal_strlit("\",\"bytes\":");
    reveal_strlit(",\"event\":\"error\",\"message\":\"");
    reveal_strlit("\"}");
    reveal_strlit("}");
    reveal_strlit("send");
    reveal_strlit("recv");
}

/// Every event record is a single line: no record contains a newline or any
/// other control character, whatever peer name or message it carries.
pub proof fn law_records_are_single_lines(ts: nat, peer: Seq<char>, dir: Direction, n: nat, msg: Seq<char>)
    ensures
        printable(connect_record(ts, peer)),
        printable(disconnect_record(ts, peer)),
        printable(data_record(ts, dir, n)),
        printable(error_record(ts, msg)),
{
    lemma_literals_printable();
    lemma_decimal_printable(ts);
    lemma_decimal_printable(n);
    law_escape_has_no_control_chars(peer);
    law_escape_has_no_control_chars(msg);
    let t = "{\"ts\":"@ + decimal(ts);
    lemma_printable_concat("{\"ts\":"@, decimal(ts));
    lemma_printable_concat(t, ",\"event\":\"connect\",\"peer\":\""@);
    lemma_printable_concat(t + ",\"event\":\"connect\",\"peer\":\""@, escape_spec(peer));
    lemma_printable_concat(t + ",\"event\":\"connect\",\"peer\":\""@ + escape_spec(peer), "\"}"@);
    lemma_printable_concat(t, ",\"event\":\"disconnect\",\"peer\":\""@);
    lemma_printable_concat(t + ",\"event\":\"disconnect\",\"peer\":\""@, escape_spec(peer));
    lemma_printable_concat(t + ",\"event\":\"disconnect\",\"peer\":\""@ + escape_spec(peer), "\"}"@);
    lemma_printable_concat(t, ",\"event\":\"error\",\"message\":\""@);
    lemma_printable_concat(t + ",\"event\":\"error\",\"message\":\""@, escape_spec(msg));
    lemma_printable_concat(t + ",\"event\":\"error\",\"message\":\""@ + escape_spec(msg), "\"}"@);
    let d1 = t + ",\"event\":\"data\",\"direction\":\""@;
    lemma_printable_concat(t, ",\"event\":\"data\",\"direction\":\""@);
    lemma_printable_concat(d1, label_text(dir));
    lemma_printable_concat(d1 + label_text(dir), "\",\"bytes\":"@);
    lemma_printable_concat(d1 + label_text(dir) + "\",\"bytes\":"@, decimal(n));
    lemma_printable_concat(d1 + label_text(dir) + "\",\"bytes\":"@ + decimal(n), "}"@);
}

/// The value of a hexadecimal digit of either case, if `c` is one.
pub open spec fn hex_value(c: char) -> Option<nat> {
    if '0' <= c && c <= '9' {
        Some(((c as u32) - ('0' as u32)) as nat)
    } else if 'a' <= c && c <= 'f' {
        Some(((c as u32) - ('a' as u32) + 10) as nat)
    } else if 'A' <= c && c <= 'F' {
        Some(((c as u32) - ('A' as u32) + 10) as nat)
    } else {
        None
    }
}

/// The number written by four hexadecimal digits, if they are.
pub open spec fn hex4(s: Seq<char>) -> Option<nat> {
    if s.len() == 4 && hex_value(s[0]) is Some && hex_value(s[1]) is Some && hex_value(s[2]) is Some
        && hex_value(s[3]) is Some {
        Some(
            hex_value(s[0])->0 * 4096 + hex_value(s[1])->0 * 256 + hex_value(s[2])->0 * 16 + hex_value(
                s[3],
            )->0,
        )
    } else {
        None
    }
}

/// `c` in front of the decoded text `r`, if there is one.
pub open spec fn prepend(c: char, r: Option<Seq<char>>) -> Option<Seq<char>> {
    match r {
        Some(t) => Some(seq![c] + t),
        None => None,
    }
}

/// Decodes the body of a JSON string literal (what stands between its
/// quotes): `None` where it is not valid JSON, such as a bare quote, a
/// control character, or an unknown or incomplete escape.
pub open spec fn json_unescape(s: Seq<char>) -> Option<Seq<char>>
    decreases s.len(),
{
    if s.len() == 0 {
        Some(Seq::empty())
    } else if s[0] == '\\' {
        if s.len() < 2 {
            None
        } else if s[1] == '"' || s[1] == '\\' || s[1] == '/' {
            prepend(s[1], json_unescape(s.skip(2)))
        } else if s[1] == 'b' {
            prepend('\u{8}', json_unescape(s.skip(2)))
        } else if s[1] == 'f' {
            prepend('\u{c}', json_unescape(s.skip(2)))
        } else if s[1] == 'n' {
            prepend('\n', json_unescape(s.skip(2)))
        } else if s[1] == 'r' {
            prepend('\r', json_unescape(s.skip(2)))
        } else if s[1] == 't' {
            prepend('\t', json_unescape(s.skip(2)))
        } else if s[1] == 'u' && s.len() >= 6 && hex4(s.subrange(2, 6)) is Some {
            let v = hex4(s.subrange(2, 6))->0;
            if v < 0xD800 || v > 0xDFFF {
                prepend((v as u32) as char, json_unescape(s.skip(6)))
            } else if v <= 0xDBFF && s.len() >= 12 && s[6] == '\\' && s[7] == 'u' && hex4(
                s.subrange(8, 12),
            ) is Some && 0xDC00 <= hex4(s.subrange(8, 12))->0 <= 0xDFFF {
                let w = hex4(s.subrange(8, 12))->0;
                prepend(
                    (0x10000 + (v - 0xD800) * 0x400 + (w - 0xDC00)) as u32 as char,
                    json_unescape(s.skip(12)),
                )
            } else {
                None
            }
        } else {
            None
        }
    } else if s[0] == '"' || (s[0] as u32) < 0x20 {
        None
    } else {
        prepend(s[0], json_unescape(s.drop_first()))
    }
}

/// `s` as a JSON string literal: escaped, between double quotes.
pub open spec fn json_string(s: Seq<char>) -> Seq<char> {
    seq!['"'] + escape_spec(s) + seq!['"']
}

/// The text a JSON string literal denotes, if `lit` is one.
pub open spec fn decode_json_string(lit: Seq<char>) -> Option<Seq<char>> {
    if lit.len() >= 2 && lit[0] == '"' && lit.last() == '"' {
        json_unescape(lit.subrange(1, lit.len() - 1))
    } else {
        None
    }
}

proof fn lemma_escape_concat(a: Seq<char>, b: Seq<char>)
    ensures
        escape_spec(a + b) == escape_spec(a) + escape_spec(b),
    decreases b.len(),
{
    if b.len() == 0 {
        assert(a + b =~= a);
        assert(escape_spec(a) + escape_spec(b) =~= escape_spec(a));
    } else {
        assert((a + b).drop_last() =~= a + b.drop_last());
        assert((a + b).last() == b.last());
        lemma_escape_concat(a, b.drop_last());
        assert(escape_spec(a + b) =~= escape_spec(a) + escape_spec(b));
    }
}

proof fn lemma_hex_value_of_digit(d: nat)
    requires
        d < 16,
    ensures
        hex_value(crate::text::hex_digit_char(d)) == Some(d),
{
}

proof fn lemma_unescape_char(c: char, t: Seq<char>)
    ensures
        json_unescape(escape_char(c) + t) == prepend(c, json_unescape(t)),
{
    let s = escape_char(c) + t;
    let v = c as u32;
    if c == '"' || c == '\\' || c == '\n' || c == '\r' || c == '\t' {
        assert(s[0] == '\\');
        assert(s.skip(2) =~= t);
    } else if v < 0x20 {
        lemma_hex_value_of_digit((v / 16) as nat);
        lemma_hex_value_of_digit((v % 16) as nat);
        assert(s[0] == '\\' && s[1] == 'u');
        assert(s.subrange(2, 6) =~= seq!['0', '0', hex_digit_char((v / 16) as nat), hex_digit_char((v % 16) as nat)]);
        assert(hex4(s.subrange(2, 6)) == Some(v as nat));
        assert(s.skip(6) =~= t);
        assert((v as u32) as char == c);
    } else {
        assert(s[0] == c);
        assert(s.drop_first() =~= t);
    }
}

/// Escaping is undone by JSON decoding: the escaped text, put between
/// double quotes, is a JSON string literal that denotes exactly the input.
pub proof fn law_escape_decodes_back(s: Seq<char>)
    ensures
        json_unescape(escape_spec(s)) == Some(s),
        decode_json_string(json_string(s)) == Some(s),
    decreases s.len(),
{
    if s.len() > 0 {
        let rest = s.drop_first();
        assert(seq![s[0]] + rest =~= s);
        lemma_escape_concat(seq![s[0]], rest);
        assert(escape_spec(seq![s[0]]) =~= escape_char(s[0])) by {
            let one = seq![s[0]];
            assert(one.drop_last() =~= Seq::<char>::empty());
            assert(one.last() == s[0]);
            assert(escape_spec(one.drop_last()) =~= Seq::<char>::empty());
            assert(Seq::<char>::empty() + escape_char(s[0]) =~= escape_char(s[0]));
        }
        law_escape_decodes_back(rest);
        lemma_unescape_char(s[0], escape_spec(rest));
        assert(seq![s[0]] + rest =~= s);
    }
    let lit = json_string(s);
    assert(lit.subrange(1, lit.len() - 1) =~= escape_spec(s));
}

/// Text with no double quote, no backslash and no control character is
/// left as it is by escaping.
pub proof fn law_escape_keeps_plain_text(s: Seq<char>)
    requires
        forall|i: int| 0 <= i < s.len() ==> #[trigger] s[i] != '"' && s[i] != '\\' && (s[i] as u32) >= 0x20,
    ensures
        escape_spec(s) == s,
    decreases s.len(),
{
    if s.len() > 0 {
        let t = s.drop_last();
        assert forall|i: int| 0 <= i < t.len() implies #[trigger] t[i] != '"' && t[i] != '\\' && (t[i] as u32)
            >= 0x20 by {
            assert(t[i] == s[i]);
        }
        law_escape_keeps_plain_text(t);
        assert(s[s.len() - 1] == s.last());
        assert(t.push(s.last()) =~= s);
    }
}

proof fn lemma_split_literals()
    ensures
        ",\"event\":\"connect\",\"peer\":\""@ == ",\"event\":\"connect\",\"peer\":"@ + seq!['"'],
        ",\"event\":\"disconnect\",\"peer\":\""@ == ",\"event\":\"disconnect\",\"peer\":"@ + seq!['"'],
        ",\"event\":\"error\",\"message\":\""@ == ",\"event\":\"error\",\"message\":"@ + seq!['"'],
        "\"}"@ == seq!['"'] + "}"@,
{
    reveal_strlit(",\"event\":\"connect\",\"peer\":\"");
    reveal_strlit(",\"event\":\"connect\",\"peer\":");
    reveal_strlit(",\"event\":\"disconnect\",\"peer\":\"");
    reveal_strlit(",\"event\":\"disconnect\",\"peer\":");
    reveal_strlit(",\"event\":\"error\",\"message\":\"");
    reveal_strlit(",\"event\":\"error\",\"message\":");
    reveal_strlit("\"}");
    reveal_strlit("}");
    assert(",\"event\":\"connect\",\"peer\":\""@ =~= ",\"event\":\"connect\",\"peer\":"@ + seq!['"']);
    assert(",\"event\":\"disconnect\",\"peer\":\""@ =~= ",\"event\":\"disconnect\",\"peer\":"@ + seq!['"']);
    assert(",\"event\":\"error\",\"message\":\""@ =~= ",\"event\":\"error\",\"message\":"@ + seq!['"']);
    assert("\"}"@ =~= seq!['"'] + "}"@);
}

/// The peer and message fields of the records are JSON string literals of
/// the peer and message themselves, so a JSON reader gets back exactly the
/// text that was logged.
pub proof fn law_record_fields_decode_back(ts: nat, peer: Seq<char>, msg: Seq<char>)
    ensures
        connect_record(ts, peer) == "{\"ts\":"@ + decimal(ts) + ",\"event\":\"connect\",\"peer\":"@ + json_string(peer)
            + "}"@,
        disconnect_record(ts, peer) == "{\"ts\":"@ + decimal(ts) + ",\"event\":\"disconnect\",\"peer\":"@
            + json_string(peer) + "}"@,
        error_record(ts, msg) == "{\"ts\":"@ + decimal(ts) + ",\"event\":\"error\",\"message\":"@ + json_string(msg)
            + "}"@,
        decode_json_string(json_string(peer)) == Some(peer),
        decode_json_string(json_string(msg)) == Some(msg),
{
    lemma_split_literals();
    law_escape_decodes_back(peer);
    law_escape_decodes_back(msg);
    let h = "{\"ts\":"@ + decimal(ts);
    assert(connect_record(ts, peer) =~= h + ",\"event\":\"connect\",\"peer\":"@ + json_string(peer) + "}"@);
    assert(disconnect_record(ts, peer) =~= h + ",\"event\":\"disconnect\",\"peer\":"@ + json_string(peer) + "}"@);
    assert(error_record(ts, msg) =~= h + ",\"event\":\"error\",\"message\":"@ + json_string(msg) + "}"@);
}

} // verus!
