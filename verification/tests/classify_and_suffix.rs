use tsundere_rustc::classifier::{classify, DiagnosticKind};
use tsundere_rustc::suffix::{next_suffix, suffix_at};
use tsundere_rustc::text::{find_fragment, has_prefix};

const POOL: [&str; 5] = [
    "（べ、別に怒ってないんだからね！）",
    "（ちょっとは頑張ったじゃない…）",
    "（あんたのことなんか心配してないんだから！）",
    "（次はうまくいく…かもね///）",
    "（もう…仕方ないなぁ…）",
];

#[test]
fn classify_error_prefix() {
    assert_eq!(classify("error: aborting due to previous error"), DiagnosticKind::Error);
    assert_eq!(classify("error[E0308]: mismatched types"), DiagnosticKind::Error);
}

#[test]
fn classify_coded_error_marker_anywhere() {
    assert_eq!(classify("see error[E0433] for details"), DiagnosticKind::Error);
}

#[test]
fn classify_note_and_help() {
    assert_eq!(classify("note: see also src/lib.rs:10"), DiagnosticKind::Note);
    assert_eq!(classify("help: consider borrowing here"), DiagnosticKind::Help);
}

#[test]
fn classify_everything_else_is_ignored() {
    assert_eq!(classify("warning: unused variable"), DiagnosticKind::Ignored);
    assert_eq!(classify(""), DiagnosticKind::Ignored);
    assert_eq!(classify("   error: indented"), DiagnosticKind::Ignored);
}

#[test]
fn classify_error_takes_precedence() {
    // Begins with "note" but holds the coded-error marker: Error wins.
    assert_eq!(classify("note: error[E0308] repeated below"), DiagnosticKind::Error);
    // Begins with "error" and could be read as other prefixes: Error wins.
    assert_eq!(classify("errors and notes and helps"), DiagnosticKind::Error);
}

#[test]
fn next_suffix_is_always_a_pool_member() {
    for _ in 0..200 {
        let s = next_suffix();
        assert!(POOL.contains(&s));
    }
}

#[test]
fn every_pool_member_is_reachable() {
    for (i, expected) in POOL.iter().enumerate() {
        assert_eq!(&suffix_at(i), expected);
    }
}

#[test]
fn fragment_search() {
    assert!(find_fragment("abcde", "bcd"));
    assert!(find_fragment("abcde", ""));
    assert!(!find_fragment("abcde", "bd"));
    assert!(!find_fragment("ab", "abc"));
}

#[test]
fn prefix_test() {
    assert!(has_prefix("note: x", "note"));
    assert!(!has_prefix("a note", "note"));
    assert!(has_prefix("anything", ""));
}
