use tsundere_rustc::dictionary::translate;

#[test]
fn known_fragments_translate_amid_surrounding_text() {
    assert_eq!(
        translate("error[E0425]: cannot resolve, `foo` not found in this scope"),
        "そんなの知らないんだから！"
    );
    assert_eq!(
        translate("error[E0308]: mismatched types"),
        "型が違うってば！ちゃんとしてよ！"
    );
    assert_eq!(
        translate("borrowed value does not live long enough"),
        "また借用のことで怒られたいの？"
    );
    assert_eq!(
        translate("error[E0425]: cannot find value `x` in this scope"),
        "見つかんないし！ちゃんと定義してよね！"
    );
    assert_eq!(
        translate("error[E0382]: use of moved value: `v`"),
        "もうその変数、いなくなっちゃったんだから！"
    );
    assert_eq!(
        translate("error[E0106]: missing lifetime specifier"),
        "ライフタイムが足りないのよ！"
    );
    assert_eq!(
        translate("error[E0277]: the trait bound `T: Copy` is not satisfied"),
        "トレイトの制約が合ってないわよ！"
    );
    assert_eq!(
        translate("`MyType` does not implement `Display`"),
        "実装してないじゃない！"
    );
    assert_eq!(
        translate("error[E0432]: unresolved import `foo::bar`"),
        "インポートミスってるわよ！"
    );
}

#[test]
fn expected_fragment_translates() {
    assert_eq!(
        translate("expected `u32`, found `&str`"),
        "期待してたのに…（違う型じゃない…）"
    );
}

#[test]
fn unknown_line_falls_back() {
    assert_eq!(
        translate("something utterly unlike a diagnostic"),
        "なにそれ…意味わかんない…（でも応援してあげる）"
    );
}

#[test]
fn empty_line_falls_back() {
    assert_eq!(
        translate(""),
        "なにそれ…意味わかんない…（でも応援してあげる）"
    );
}

#[test]
fn earliest_rule_wins_when_two_fragments_occur() {
    // Holds both "not found" (first rule) and "expected" (third rule):
    // the earlier rule decides.
    assert_eq!(
        translate("expected item, `foo` not found"),
        "そんなの知らないんだから！"
    );
    // Holds both "mismatched types" (second rule) and "expected" (third
    // rule), in either textual order: dictionary order decides, not
    // position in the line.
    assert_eq!(
        translate("expected `u32` because of mismatched types"),
        "型が違うってば！ちゃんとしてよ！"
    );
}

#[test]
fn matching_is_case_sensitive() {
    assert_eq!(
        translate("Mismatched Types"),
        "なにそれ…意味わかんない…（でも応援してあげる）"
    );
}
