use bytegrep::matcher::find_first;
use bytegrep::scan::{found, next_hit, report, scan, ScanError};

fn offsets(buffer: &[u8], pattern: &[u8], context: u64) -> Vec<usize> {
    scan(buffer, pattern, context, false)
        .unwrap()
        .iter()
        .map(|hit| hit.offset)
        .collect()
}

#[test]
fn find_first_returns_leftmost_match() {
    assert_eq!(find_first(b"xxabxxabxx", b"ab"), Some(2));
    assert_eq!(find_first(b"abab", b"ab"), Some(0));
    assert_eq!(find_first(b"aaab", b"ab"), Some(2));
    assert_eq!(find_first(b"hello world, hello", b"hello w"), Some(0));
    assert_eq!(find_first(b"a long haystack with a needle in it", b"needle"), Some(23));
}

#[test]
fn find_first_reports_absence() {
    assert_eq!(find_first(b"xxabxxabxx", b"ba"), None);
    assert_eq!(find_first(b"", b"a"), None);
    assert_eq!(find_first(b"ab", b"abc"), None);
    assert_eq!(find_first(b"AB", b"ab"), None);
}

#[test]
fn find_first_single_byte_and_empty_pattern() {
    assert_eq!(find_first(&[1, 2, 3, 2], &[2]), Some(1));
    assert_eq!(find_first(&[1, 2, 3], &[]), Some(0));
    assert_eq!(find_first(&[], &[]), Some(0));
}

#[test]
fn overlapping_single_byte_matches_are_all_reported() {
    assert_eq!(offsets(&[0xAA, 0xAA, 0xAA], &[0xAA], 0), vec![0, 1, 2]);
}

#[test]
fn overlapping_longer_matches_are_all_reported() {
    assert_eq!(offsets(&[0xAA, 0xAA, 0xAA], &[0xAA, 0xAA], 0), vec![0, 1]);
    assert_eq!(offsets(b"abababa", b"aba", 3), vec![0, 2, 4]);
}

#[test]
fn two_hits_in_ten_bytes() {
    let hits = scan(b"xxabxxabxx", b"ab", 0, false).unwrap();
    assert_eq!(hits.len(), 2);
    assert_eq!(hits[0].offset, 2);
    assert_eq!(hits[1].offset, 6);
    assert_eq!(
        hits[0].rows,
        vec!["00000000  78 78 61 62 78 78 61 62  78 78  |xxabxxabxx|\n".to_string()]
    );
    // The second window is taken in the working buffer, which begins one
    // byte past the start of the first match.
    assert_eq!(
        hits[1].rows,
        vec!["00000003  62 78 78 61 62 78 78  |bxxabxx|\n".to_string()]
    );
    assert!(found(&hits));
}

#[test]
fn report_separates_hits_by_an_empty_line() {
    let hits = scan(b"xxabxxabxx", b"ab", 0, false).unwrap();
    assert_eq!(
        report(&hits),
        "00000000  78 78 61 62 78 78 61 62  78 78  |xxabxxabxx|\n\n00000003  62 78 78 61 62 78 78  |bxxabxx|\n"
    );
}

#[test]
fn absent_pattern_gives_no_hit_and_no_text() {
    let hits = scan(b"xxabxxabxx", b"zz", 16, true).unwrap();
    assert!(hits.is_empty());
    assert!(!found(&hits));
    assert_eq!(report(&hits), "");
}

#[test]
fn empty_buffer_gives_no_hit() {
    let hits = scan(b"", b"a", 16, false).unwrap();
    assert!(hits.is_empty());
}

#[test]
fn empty_pattern_is_rejected() {
    match scan(b"abc", b"", 16, false) {
        Err(e) => assert_eq!(e, ScanError::EmptyPattern),
        Ok(_) => panic!("an empty pattern was accepted"),
    }
    match scan(b"", b"", 0, true) {
        Err(e) => assert_eq!(e, ScanError::EmptyPattern),
        Ok(_) => panic!("an empty pattern was accepted"),
    }
}

#[test]
fn number_of_hits_is_at_most_the_buffer_length() {
    let buffer = vec![7u8; 40];
    let hits = scan(&buffer, &[7], 0, false).unwrap();
    assert_eq!(hits.len(), 40);
    for (k, hit) in hits.iter().enumerate() {
        assert_eq!(hit.offset, k);
    }
}

#[test]
fn hit_in_second_row_with_context() {
    let buffer: Vec<u8> = (0u8..64).collect();
    let hits = scan(&buffer, &[0x21, 0x22], 16, false).unwrap();
    assert_eq!(hits.len(), 1);
    assert_eq!(hits[0].offset, 0x21);
    assert_eq!(
        hits[0].rows,
        vec![
            "00000010  10 11 12 13 14 15 16 17  18 19 1a 1b 1c 1d 1e 1f  |................|\n".to_string(),
            "00000020  20 21 22 23 24 25 26 27  28 29 2a 2b 2c 2d 2e 2f  | !\"#$%&'()*+,-./|\n".to_string(),
            "00000030  30 31 32 33 34 35 36 37  38 39 3a 3b 3c 3d 3e 3f  |0123456789:;<=>?|\n".to_string(),
        ]
    );
}

#[test]
fn highlighted_hit_marks_the_match_in_both_columns() {
    let hits = scan(b"xaby", b"ab", 0, true).unwrap();
    assert_eq!(hits.len(), 1);
    assert_eq!(
        hits[0].rows,
        vec![
            "00000000  78 \x1b[33m61\x1b[0m \x1b[33m62\x1b[0m 79  |x\x1b[33ma\x1b[0m\x1b[33mb\x1b[0my|\n"
                .to_string()
        ]
    );
}

#[test]
fn next_hit_searches_from_the_cursor() {
    let buffer = b"xxabxxabxx";
    let first = next_hit(buffer, 0, b"ab", 0, false).unwrap();
    assert_eq!(first.offset, 2);
    let second = next_hit(buffer, 3, b"ab", 0, false).unwrap();
    assert_eq!(second.offset, 6);
    assert!(next_hit(buffer, 7, b"ab", 0, false).is_none());
    assert!(next_hit(buffer, 10, b"ab", 0, false).is_none());
}

#[test]
fn huge_context_shows_the_whole_working_buffer() {
    let hits = scan(b"xxabxxabxx", b"ab", u64::MAX, false).unwrap();
    assert_eq!(hits.len(), 2);
    assert_eq!(hits[0].rows.len(), 1);
    assert_eq!(
        hits[1].rows,
        vec!["00000003  62 78 78 61 62 78 78  |bxxabxx|\n".to_string()]
    );
}
