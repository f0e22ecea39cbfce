use rnc::filter::LineFilter;

#[test]
fn line_filter_forwards_only_matching_lines() {
    let mut f = LineFilter::new("ERROR").unwrap();
    let mut out = Vec::new();
    f.feed(b"normal line\nERROR: bad thing\nanother normal line\n", &mut out);
    f.flush_remainder(&mut out);
    assert_eq!(out, b"ERROR: bad thing\n");
}

#[test]
fn line_filter_rejects_bad_pattern() {
    assert!(LineFilter::new("(").is_none());
    assert!(LineFilter::new("a+").is_some());
}

#[test]
fn line_filter_chunking_does_not_change_output() {
    let data = b"xx ERROR one\nskip\nERR\nmore ERROR two\ntail ERROR";
    let mut whole = Vec::new();
    let mut f = LineFilter::new("ERROR").unwrap();
    f.feed(data, &mut whole);
    f.flush_remainder(&mut whole);

    for split in 0..data.len() {
        let mut pieces = Vec::new();
        let mut g = LineFilter::new("ERROR").unwrap();
        g.feed(&data[..split], &mut pieces);
        g.feed(&data[split..], &mut pieces);
        g.flush_remainder(&mut pieces);
        assert_eq!(pieces, whole, "split at {split}");
    }
    assert_eq!(whole, b"xx ERROR one\nmore ERROR two\ntail ERROR");
}

#[test]
fn line_filter_holds_partial_line_until_newline() {
    let mut f = LineFilter::new("abc").unwrap();
    let mut out = Vec::new();
    f.feed(b"ab", &mut out);
    assert!(out.is_empty());
    f.feed(b"c\n", &mut out);
    assert_eq!(out, b"abc\n");
}

#[test]
fn line_filter_flush_drops_unmatched_remainder() {
    let mut f = LineFilter::new("^keep").unwrap();
    let mut out = Vec::new();
    f.feed(b"drop me", &mut out);
    f.flush_remainder(&mut out);
    assert!(out.is_empty());
    f.feed(b"keep", &mut out);
    f.flush_remainder(&mut out);
    assert_eq!(out, b"keep");
    f.flush_remainder(&mut out);
    assert_eq!(out, b"keep");
}

#[test]
fn line_filter_matches_lossy_text() {
    // Invalid UTF-8 is decoded with U+FFFD before matching.
    let mut f = LineFilter::new("\u{FFFD}").unwrap();
    let mut out = Vec::new();
    f.feed(&[0x61, 0xff, b'\n', b'o', b'k', b'\n'], &mut out);
    assert_eq!(out, vec![0x61, 0xff, b'\n']);
}

#[test]
fn line_filter_matches_line_with_its_newline() {
    // `$` matches only at the very end of the text, which includes the newline.
    let mut f = LineFilter::new("x$").unwrap();
    let mut out = Vec::new();
    f.feed(b"x\n", &mut out);
    assert!(out.is_empty());
    f.feed(b"x", &mut out);
    f.flush_remainder(&mut out);
    assert_eq!(out, b"x");
}
