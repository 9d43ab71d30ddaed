//! The ordered pattern dictionary and the message translator.
//!
//! Each rule pairs a detector fragment with a localized message. A diagnostic
//! line is translated to the message of the first rule (in dictionary order)
//! whose fragment occurs anywhere in the line; when no rule matches, a fixed
//! fallback message is returned.

use vstd::prelude::*;
use vstd::string::*;
use crate::text::contains_fragment;

verus! {

/// Number of rules in the dictionary.
pub open spec fn num_rules() -> int {
    10
}

/// The detector fragment of rule `i`, in the fixed dictionary order.
pub open spec fn rule_pattern(i: int) -> Seq<char> {
    if i == 0 {
        "not found"@
    } else if i == 1 {
        "mismatched types"@
    } else if i == 2 {
        "expected"@
    } else if i == 3 {
        "borrowed"@
    } else if i == 4 {
        "cannot find"@
    } else if i == 5 {
        "use of moved value"@
    } else if i == 6 {
        "missing lifetime specifier"@
    } else if i == 7 {
        "the trait bound"@
    } else if i == 8 {
        "does not implement"@
    } else if i == 9 {
        "unresolved import"@
    } else {
        Seq::empty()
    }
}

/// The localized message of rule `i`.
pub open spec fn rule_message(i: int) -> Seq<char> {
    if i == 0 {
        "そんなの知らないんだから！"@
    } else if i == 1 {
        "型が違うってば！ちゃんとしてよ！"@
    } else if i == 2 {
        "期待してたのに…（違う型じゃない…）"@
    } else if i == 3 {
        "また借用のことで怒られたいの？"@
    } else if i == 4 {
        "見つかんないし！ちゃんと定義してよね！"@
    } else if i == 5 {
        "もうその変数、いなくなっちゃったんだから！"@
    } else if i == 6 {
        "ライフタイムが足りないのよ！"@
    } else if i == 7 {
        "トレイトの制約が合ってないわよ！"@
    } else if i == 8 {
        "実装してないじゃない！"@
    } else if i == 9 {
        "インポートミスってるわよ！"@
    } else {
        Seq::empty()
    }
}

/// The fallback message returned when no rule matches.
pub open spec fn fallback_message() -> Seq<char> {
    "なにそれ…意味わかんない…（でも応援してあげる）"@
}

/// The index of the first rule at or after `i` whose fragment occurs in
/// `line`, or `num_rules()` when none does.
pub open spec fn first_match_from(line: Seq<char>, i: int) -> int
    decreases num_rules() - i,
{
    if i < 0 || i >= num_rules() {
        num_rules()
    } else if contains_fragment(line, rule_pattern(i)) {
        i
    } else {
        first_match_from(line, i + 1)
    }
}

/// What `translate` returns: the message of the earliest matching rule, or
/// the fallback message when no rule matches.
pub open spec fn spec_translate(line: Seq<char>) -> Seq<char> {
    if first_match_from(line, 0) < num_rules() {
        rule_message(first_match_from(line, 0))
    } else {
        fallback_message()
    }
}

/// The detector fragment of rule `i`, as an executable string.
pub fn pattern_at(i: usize) -> (r: &'static str)
    requires
        i < num_rules(),
    ensures
        r@ == rule_pattern(i as int),
{
    match i {
        0 => "not found",
        1 => "mismatched types",
        2 => "expected",
        3 => "borrowed",
        4 => "cannot find",
        5 => "use of moved value",
        6 => "missing lifetime specifier",
        7 => "the trait bound",
        8 => "does not implement",
        _ => "unresolved import",
    }
}

/// The localized message of rule `i`, as an executable string.
pub fn message_at(i: usize) -> (r: &'static str)
    requires
        i < num_rules(),
    ensures
        r@ == rule_message(i as int),
{
    match i {
        0 => "そんなの知らないんだから！",
        1 => "型が違うってば！ちゃんとしてよ！",
        2 => "期待してたのに…（違う型じゃない…）",
        3 => "また借用のことで怒られたいの？",
        4 => "見つかんないし！ちゃんと定義してよね！",
        5 => "もうその変数、いなくなっちゃったんだから！",
        6 => "ライフタイムが足りないのよ！",
        7 => "トレイトの制約が合ってないわよ！",
        8 => "実装してないじゃない！",
        _ => "インポートミスってるわよ！",
    }
}

/// When the rules before `i` do not match, the first match from an earlier
/// start is the first match from `i`.
proof fn lemma_first_match_skip(line: Seq<char>, k: int, i: int)
    requires
        0 <= k <= i <= num_rules(),
        forall|j: int| k <= j < i ==> !contains_fragment(line, rule_pattern(j)),
    ensures
        first_match_from(line, k) == first_match_from(line, i),
    decreases i - k,
{
    if k < i {
        lemma_first_match_skip(line, k + 1, i);
    }
}

/// Translates one diagnostic line: the message of the first rule whose
/// fragment occurs in the line, or the fallback message.
pub fn translate(line: &str) -> (r: String)
    ensures
        r@ == spec_translate(line@),
{
    let mut i: usize = 0;
    while i < 10
        invariant
            i <= 10,
            forall|j: int| 0 <= j < i ==> !contains_fragment(line@, rule_pattern(j)),
        decreases 10 - i,
    {
        if crate::text::find_fragment(line, pattern_at(i)) {
            proof {
                lemma_first_match_skip(line@, 0, i as int);
            }
            return String::from_str(message_at(i));
        }
        i = i + 1;
    }
    proof {
        lemma_first_match_skip(line@, 0, num_rules());
    }
    String::from_str("なにそれ…意味わかんない…（でも応援してあげる）")
}

/// Law: a line in which the fragment of rule `i` occurs, and in which no
/// earlier rule's fragment occurs, translates to the message of rule `i`,
/// whatever else the line holds and whichever later rules also match. In
/// particular, when two fragments both occur, the earlier rule wins.
pub proof fn lemma_translate_first_match(line: Seq<char>, i: int)
    requires
        0 <= i < num_rules(),
        contains_fragment(line, rule_pattern(i)),
        forall|j: int| 0 <= j < i ==> !contains_fragment(line, rule_pattern(j)),
    ensures
        spec_translate(line) == rule_message(i),
{
    lemma_first_match_skip(line, 0, i);
}

/// Law: a line in which no rule's fragment occurs translates to the fallback
/// message.
pub proof fn lemma_translate_fallback(line: Seq<char>)
    requires
        forall|j: int| 0 <= j < num_rules() ==> !contains_fragment(line, rule_pattern(j)),
    ensures
        spec_translate(line) == fallback_message(),
{
    lemma_first_match_skip(line, 0, num_rules());
}

/// Law: when the fragments of two rules both occur in one line, and nothing
/// earlier than the first of them occurs, the earlier of the two decides the
/// translation.
pub proof fn lemma_translate_earliest_of_two(line: Seq<char>, i: int, j: int)
    requires
        0 <= i < j < num_rules(),
        contains_fragment(line, rule_pattern(i)),
        contains_fragment(line, rule_pattern(j)),
        forall|k: int| 0 <= k < i ==> !contains_fragment(line, rule_pattern(k)),
    ensures
        spec_translate(line) == rule_message(i),
{
    lemma_translate_first_match(line, i);
}

} // verus!
