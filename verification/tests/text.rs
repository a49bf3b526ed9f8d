use saya::manifest::{save_action, SaveAction};
use saya::text::{
    contains_sub, ends_with, is_whitespace, nonblank_lines_of, starts_with, str_eq, trim_str,
    words_of,
};

const SAMPLES: &[&str] = &[
    "",
    "\n",
    "a",
    "a\n",
    "a\r\n",
    "a\r",
    " a b  c \n\n d\r\n\t\u{3000}e\u{85}",
    "\u{2003}x\u{2003}",
    "line one\nline two\r\n\r\n  \n last",
    "git\nneovim\ncurl\n",
];

#[test]
fn whitespace_matches_std_for_every_char() {
    for u in 0u32..=0x10FFFF {
        if let Some(c) = char::from_u32(u) {
            assert_eq!(is_whitespace(c), c.is_whitespace(), "U+{u:04X}");
        }
    }
}

#[test]
fn trimming_and_splitting_match_std() {
    for s in SAMPLES {
        assert_eq!(trim_str(s), s.trim());
        let words: Vec<String> = s.split_whitespace().map(str::to_string).collect();
        assert_eq!(words_of(s), words);
        let lines: Vec<String> = s
            .lines()
            .map(str::trim)
            .filter(|l| !l.is_empty())
            .map(str::to_string)
            .collect();
        assert_eq!(nonblank_lines_of(s), lines);
    }
}

#[test]
fn comparisons_match_std() {
    let pairs = [("saya", "sa"), ("saya", "ya"), ("saya", "aya"), ("", ""), ("a", "ab"), ("x://y", "://")];
    for (s, p) in pairs {
        assert_eq!(starts_with(s, p), s.starts_with(p));
        assert_eq!(ends_with(s, p), s.ends_with(p));
        assert_eq!(contains_sub(s, p), s.contains(p));
        assert_eq!(str_eq(s, p), s == p);
    }
}

#[test]
fn save_keeps_identical_contents_only() {
    let text = b"schema_version = 5\n".to_vec();
    assert_eq!(save_action(&Some(text.clone()), &text), SaveAction::KeepContents);
    assert_eq!(save_action(&None, &text), SaveAction::Replace);
    assert_eq!(save_action(&Some(b"schema_version = 4\n".to_vec()), &text), SaveAction::Replace);
    assert_eq!(save_action(&Some(Vec::new()), &text), SaveAction::Replace);
}
