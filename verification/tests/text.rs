use akc::text::{chars_of, find_char, find_whitespace, is_whitespace, split_whitespace_bounds, trim_bounds};

#[test]
fn whitespace_matches_std() {
    for c in ['\u{0}', 'a', ' ', '\t', '\n', '\u{b}', '\u{c}', '\r', '\u{85}', '\u{a0}', '\u{1680}',
        '\u{2000}', '\u{200a}', '\u{200b}', '\u{2028}', '\u{2029}', '\u{202f}', '\u{205f}',
        '\u{3000}', '\u{feff}', 'é'] {
        assert_eq!(is_whitespace(c), c.is_whitespace(), "{c:?}");
    }
}

#[test]
fn trim_matches_std() {
    for s in ["", "  ", " a ", "a", "\u{3000}x y\u{85}", "\tk\tv\t"] {
        let cs = chars_of(s);
        let (a, b) = trim_bounds(&cs);
        let got: String = cs[a..b].iter().collect();
        assert_eq!(got, s.trim());
    }
}

#[test]
fn split_matches_std() {
    for s in ["", "  ", "a", " a  bb\tc ", "x\u{2003}y"] {
        let cs = chars_of(s);
        let words: Vec<String> = split_whitespace_bounds(&cs)
            .iter()
            .map(|&(a, b)| cs[a..b].iter().collect())
            .collect();
        let expected: Vec<String> = s.split_whitespace().map(String::from).collect();
        assert_eq!(words, expected);
    }
}

#[test]
fn finds() {
    let cs = chars_of("ab c\nd");
    assert_eq!(find_char(&cs, ' '), 2);
    assert_eq!(find_char(&cs, 'z'), cs.len());
    assert_eq!(find_whitespace(&cs), 2);
}
