use bytegrep::color::ColorWhen;
use bytegrep::options::Opt;
use bytegrep::pattern::{pattern_bytes, HexError, PatternError};

fn opt(hex: Option<&str>, text: Option<&str>, context: u64, color_when: ColorWhen) -> Opt {
    Opt {
        hex_pattern: hex.map(|s| s.to_string()),
        text_pattern: text.map(|s| s.to_string()),
        context,
        color_when,
        input: "input.bin".to_string(),
    }
}

#[test]
fn hex_pattern_is_decoded() {
    assert_eq!(
        pattern_bytes(&Some("6e616e6f6861".to_string()), &None),
        Ok(b"nanoha".to_vec())
    );
    assert_eq!(pattern_bytes(&Some("4A4b".to_string()), &None), Ok(vec![0x4a, 0x4b]));
    assert_eq!(pattern_bytes(&Some("00ff".to_string()), &None), Ok(vec![0x00, 0xff]));
    assert_eq!(pattern_bytes(&Some(String::new()), &None), Ok(vec![]));
}

#[test]
fn hex_pattern_of_odd_length_is_refused() {
    assert_eq!(
        pattern_bytes(&Some("123".to_string()), &None),
        Err(PatternError::Hex(HexError::OddLength))
    );
    assert_eq!(
        pattern_bytes(&Some("zzz".to_string()), &None),
        Err(PatternError::Hex(HexError::OddLength))
    );
}

#[test]
fn hex_pattern_with_a_wrong_character_names_the_first() {
    assert_eq!(
        pattern_bytes(&Some("zz".to_string()), &None),
        Err(PatternError::Hex(HexError::InvalidHexCharacter { c: 'z', index: 0 }))
    );
    assert_eq!(
        pattern_bytes(&Some("0g".to_string()), &None),
        Err(PatternError::Hex(HexError::InvalidHexCharacter { c: 'g', index: 1 }))
    );
    assert_eq!(
        pattern_bytes(&Some("00112x3y".to_string()), &None),
        Err(PatternError::Hex(HexError::InvalidHexCharacter { c: 'x', index: 5 }))
    );
}

#[test]
fn text_pattern_gives_its_bytes() {
    assert_eq!(pattern_bytes(&None, &Some("rust".to_string())), Ok(b"rust".to_vec()));
    assert_eq!(
        pattern_bytes(&None, &Some("\u{e9}".to_string())),
        Ok(vec![0xc3, 0xa9])
    );
}

#[test]
fn hex_pattern_comes_before_text_pattern() {
    assert_eq!(
        pattern_bytes(&Some("41".to_string()), &Some("zz".to_string())),
        Ok(vec![0x41])
    );
}

#[test]
fn missing_pattern_is_an_error() {
    assert_eq!(pattern_bytes(&None, &None), Err(PatternError::Missing));
}

#[test]
fn run_scans_with_the_text_pattern() {
    let outcome = opt(None, Some("ab"), 0, ColorWhen::Never)
        .run(b"xxabxxabxx", true)
        .unwrap();
    assert!(outcome.found);
    assert_eq!(outcome.hits.len(), 2);
    assert_eq!(
        outcome.text,
        "00000000  78 78 61 62 78 78 61 62  78 78  |xxabxxabxx|\n\n00000003  62 78 78 61 62 78 78  |bxxabxx|\n"
    );
}

#[test]
fn run_scans_with_the_hex_pattern() {
    let outcome = opt(Some("6162"), None, 0, ColorWhen::Never)
        .run(b"xxabxxabxx", false)
        .unwrap();
    assert_eq!(outcome.hits.len(), 2);
    assert_eq!(outcome.hits[0].offset, 2);
    assert_eq!(outcome.hits[1].offset, 6);
}

#[test]
fn run_highlights_as_the_color_choice_says() {
    let plain = "00000000  78 61  |xa|\n";
    let marked = "00000000  78 \x1b[33m61\x1b[0m  |x\x1b[33ma\x1b[0m|\n";
    let text = |when: ColorWhen, isatty: bool| opt(None, Some("a"), 16, when).run(b"xa", isatty).unwrap().text;
    assert_eq!(text(ColorWhen::Always, false), marked);
    assert_eq!(text(ColorWhen::Never, true), plain);
    assert_eq!(text(ColorWhen::Auto, true), marked);
    assert_eq!(text(ColorWhen::Auto, false), plain);
}

#[test]
fn run_without_a_match_finds_nothing() {
    let outcome = opt(None, Some("zz"), 16, ColorWhen::Always)
        .run(b"xxabxxabxx", true)
        .unwrap();
    assert!(!outcome.found);
    assert!(outcome.hits.is_empty());
    assert_eq!(outcome.text, "");
}

#[test]
fn run_refuses_an_empty_pattern() {
    assert_eq!(
        opt(None, Some(""), 16, ColorWhen::Auto).run(b"abc", true).err(),
        Some(PatternError::Empty)
    );
    assert_eq!(
        opt(Some(""), None, 16, ColorWhen::Auto).run(b"abc", true).err(),
        Some(PatternError::Empty)
    );
}

#[test]
fn run_hands_on_the_pattern_error() {
    assert_eq!(
        opt(Some("abc"), None, 16, ColorWhen::Auto).run(b"abc", true).err(),
        Some(PatternError::Hex(HexError::OddLength))
    );
    assert_eq!(
        opt(None, None, 16, ColorWhen::Auto).run(b"abc", true).err(),
        Some(PatternError::Missing)
    );
}
