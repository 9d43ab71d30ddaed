//! The suffix selector: picks one decorative string from a fixed, non-empty
//! pool, uniformly at random.

use rand::RngExt;
use vstd::prelude::*;

verus! {

/// Number of suffixes in the pool.
pub open spec fn pool_size() -> int {
    5
}

/// The decorative suffix at position `i` of the fixed pool.
pub open spec fn pool_suffix(i: int) -> Seq<char> {
    if i == 0 {
        "（べ、別に怒ってないんだからね！）"@
    } else if i == 1 {
        "（ちょっとは頑張ったじゃない…）"@
    } else if i == 2 {
        "（あんたのことなんか心配してないんだから！）"@
    } else if i == 3 {
        "（次はうまくいく…かもね///）"@
    } else if i == 4 {
        "（もう…仕方ないなぁ…）"@
    } else {
        Seq::empty()
    }
}

/// `s` is a member of the suffix pool.
pub open spec fn in_pool(s: Seq<char>) -> bool {
    exists|i: int| 0 <= i < pool_size() && s == pool_suffix(i)
}

/// The suffix at position `i` of the pool, as an executable string. Every
/// pool member is returned for some index, so none is unreachable.
pub fn suffix_at(i: usize) -> (r: &'static str)
    requires
        i < pool_size(),
    ensures
        r@ == pool_suffix(i as int),
{
    match i {
        0 => "（べ、別に怒ってないんだからね！）",
        1 => "（ちょっとは頑張ったじゃない…）",
        2 => "（あんたのことなんか心配してないんだから！）",
        3 => "（次はうまくいく…かもね///）",
        _ => "（もう…仕方ないなぁ…）",
    }
}

/// Relies on rand: `RngExt::random_range` over `0..n` returns a value of the
/// range, uniformly distributed; the range is non-empty here, so the call
/// does not panic. Nothing more is promised of a random draw.
#[verifier::external_body]
fn random_below(n: usize) -> (r: usize)
    requires
        n >= 1,
    ensures
        r < n,
{
    let mut rng = rand::rng();
    rng.random_range(0..n)
}

/// Picks one decorative suffix at random. Whatever index the random source
/// drew, the returned suffix is a member of the fixed pool.
pub fn next_suffix() -> (r: &'static str)
    ensures
        in_pool(r@),
{
    let i = random_below(5);
    let r = suffix_at(i);
    proof {
        assert(0 <= i < pool_size() && r@ == pool_suffix(i as int));
    }
    r
}

} // verus!
