use tsundere_rustc::pipeline::{render, LineStyle};
use tsundere_rustc::text::split_lines;

const POOL: [&str; 5] = [
    "（べ、別に怒ってないんだからね！）",
    "（ちょっとは頑張ったじゃない…）",
    "（あんたのことなんか心配してないんだから！）",
    "（次はうまくいく…かもね///）",
    "（もう…仕方ないなぁ…）",
];

#[test]
fn success_emits_exactly_one_celebratory_line() {
    let out = render(true, "error[E0308]: mismatched types\nnote: ignored anyway");
    assert_eq!(out.len(), 1);
    assert!(matches!(out[0].style, LineStyle::Celebration));
    assert_eq!(out[0].text, "/// べ、別に成功して嬉しいわけじゃないんだからね！");
}

#[test]
fn error_line_emits_translation_and_suffix() {
    let out = render(false, "error[E0308]: mismatched types");
    assert_eq!(out.len(), 3);
    assert!(matches!(out[0].style, LineStyle::Alert));
    assert_eq!(out[0].text, "💢 コンパイルエラー発生！");
    assert!(matches!(out[1].style, LineStyle::Translated));
    assert_eq!(out[1].text, "🦀 型が違うってば！ちゃんとしてよ！");
    assert!(matches!(out[2].style, LineStyle::Suffix));
    assert!(POOL.contains(&out[2].text.as_str()));
}

#[test]
fn note_line_passes_through_under_hint_marker() {
    let out = render(false, "note: see also src/lib.rs:10");
    assert_eq!(out.len(), 2);
    assert!(matches!(out[1].style, LineStyle::Hint));
    assert_eq!(out[1].text, "💬 ヒント: note: see also src/lib.rs:10");
}

#[test]
fn help_line_passes_through_under_advice_marker() {
    let out = render(false, "help: consider borrowing here");
    assert_eq!(out.len(), 2);
    assert!(matches!(out[1].style, LineStyle::Advice));
    assert_eq!(out[1].text, "💡 助言: help: consider borrowing here");
}

#[test]
fn ignored_line_emits_nothing() {
    let out = render(false, "warning: unused variable");
    assert_eq!(out.len(), 1);
    assert!(matches!(out[0].style, LineStyle::Alert));
}

#[test]
fn output_keeps_input_order_and_pairs_stay_adjacent() {
    let stderr = "warning: unused variable\n\
                  error[E0308]: mismatched types\n\
                  note: expected `u32`\n\
                  error: `foo` not found here\n\
                  help: try importing it\n";
    let out = render(false, stderr);
    assert_eq!(out.len(), 7);
    assert!(matches!(out[0].style, LineStyle::Alert));
    assert!(matches!(out[1].style, LineStyle::Translated));
    assert_eq!(out[1].text, "🦀 型が違うってば！ちゃんとしてよ！");
    assert!(matches!(out[2].style, LineStyle::Suffix));
    assert!(POOL.contains(&out[2].text.as_str()));
    assert!(matches!(out[3].style, LineStyle::Hint));
    assert_eq!(out[3].text, "💬 ヒント: note: expected `u32`");
    assert!(matches!(out[4].style, LineStyle::Translated));
    assert_eq!(out[4].text, "🦀 そんなの知らないんだから！");
    assert!(matches!(out[5].style, LineStyle::Suffix));
    assert!(POOL.contains(&out[5].text.as_str()));
    assert!(matches!(out[6].style, LineStyle::Advice));
    assert_eq!(out[6].text, "💡 助言: help: try importing it");
}

#[test]
fn empty_stderr_on_failure_emits_only_the_header() {
    let out = render(false, "");
    assert_eq!(out.len(), 1);
    assert!(matches!(out[0].style, LineStyle::Alert));
}

#[test]
fn split_lines_matches_line_splitting() {
    let lines = split_lines("a\nb\r\nc");
    assert_eq!(lines, vec!["a", "b", "c"]);
    assert_eq!(split_lines("a\nb\n"), vec!["a", "b"]);
    assert_eq!(split_lines(""), Vec::<String>::new());
    assert_eq!(split_lines("\n\n"), vec!["", ""]);
    // A carriage return not followed by a newline is kept.
    assert_eq!(split_lines("a\r"), vec!["a\r"]);
}
