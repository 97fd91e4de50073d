//! Overlay-surface keys.
//!
//! Each captured monitor is published under the key
//! `screenshot_overlay_<index>`, where the index is the monitor's 0-based
//! position in that session's capture order.  The key is deterministic,
//! and distinct indices give distinct keys.

use vstd::prelude::*;

verus! {

/// The character for one decimal digit `d < 10`.
pub open spec fn digit_char(d: nat) -> char {
    if d == 0 {
        '0'
    } else if d == 1 {
        '1'
    } else if d == 2 {
        '2'
    } else if d == 3 {
        '3'
    } else if d == 4 {
        '4'
    } else if d == 5 {
        '5'
    } else if d == 6 {
        '6'
    } else if d == 7 {
        '7'
    } else if d == 8 {
        '8'
    } else {
        '9'
    }
}

/// The decimal digits of `n`, most significant first, with no leading
/// zeros (except for `n == 0` itself).
pub open spec fn decimal(n: nat) -> Seq<char>
    decreases n,
{
    if n < 10 {
        seq![digit_char(n)]
    } else {
        decimal(n / 10) + seq![digit_char(n % 10)]
    }
}

/// The key under which the image of the monitor at capture position
/// `index` is published.
pub open spec fn surface_key(index: nat) -> Seq<char> {
    "screenshot_overlay_"@ + decimal(index)
}

pub proof fn lemma_decimal_len(n: nat)
    ensures
        decimal(n).len() >= 1,
        n >= 10 ==> decimal(n).len() >= 2,
    decreases n,
{
    if n >= 10 {
        lemma_decimal_len(n / 10);
    }
}

/// Distinct numbers have distinct decimal representations.
pub proof fn lemma_decimal_injective(a: nat, b: nat)
    requires
        decimal(a) == decimal(b),
    ensures
        a == b,
    decreases a,
{
    lemma_decimal_len(a);
    lemma_decimal_len(b);
    if a < 10 && b < 10 {
        assert(decimal(a)[0] == digit_char(a));
        assert(decimal(b)[0] == digit_char(b));
    } else if a < 10 {
        assert(decimal(a).len() == 1);
        assert(decimal(b).len() >= 2);
    } else if b < 10 {
        assert(decimal(a).len() >= 2);
        assert(decimal(b).len() == 1);
    } else {
        let la = decimal(a).len();
        assert(decimal(a).last() == digit_char(a % 10));
        assert(decimal(b).last() == digit_char(b % 10));
        assert(a % 10 == b % 10);
        assert(decimal(a).drop_last() =~= decimal(a / 10));
        assert(decimal(b).drop_last() =~= decimal(b / 10));
        lemma_decimal_injective(a / 10, b / 10);
        assert(a == 10 * (a / 10) + a % 10);
        assert(b == 10 * (b / 10) + b % 10);
    }
}

/// Distinct capture positions give distinct surface keys.
pub proof fn lemma_surface_key_injective(a: nat, b: nat)
    requires
        surface_key(a) == surface_key(b),
    ensures
        a == b,
{
    let p = "screenshot_overlay_"@;
    assert(decimal(a) =~= surface_key(a).subrange(p.len() as int, surface_key(a).len() as int));
    assert(decimal(b) =~= surface_key(b).subrange(p.len() as int, surface_key(b).len() as int));
    lemma_decimal_injective(a, b);
}

/// The one-character string for the decimal digit `d`.
fn digit_str(d: usize) -> (r: &'static str)
    requires
        d < 10,
    ensures
        r@ == seq![digit_char(d as nat)],
{
    proof {
        reveal_strlit("0");
        reveal_strlit("1");
        reveal_strlit("2");
        reveal_strlit("3");
        reveal_strlit("4");
        reveal_strlit("5");
        reveal_strlit("6");
        reveal_strlit("7");
        reveal_strlit("8");
        reveal_strlit("9");
    }
    let r = if d == 0 {
        "0"
    } else if d == 1 {
        "1"
    } else if d == 2 {
        "2"
    } else if d == 3 {
        "3"
    } else if d == 4 {
        "4"
    } else if d == 5 {
        "5"
    } else if d == 6 {
        "6"
    } else if d == 7 {
        "7"
    } else if d == 8 {
        "8"
    } else {
        "9"
    };
    proof {
        assert(r@ =~= seq![digit_char(d as nat)]);
    }
    r
}

/// Formats `i` in decimal.
pub fn format_index(i: usize) -> (r: String)
    ensures
        r@ == decimal(i as nat),
    decreases i,
{
    if i < 10 {
        digit_str(i).to_owned()
    } else {
        let mut s = format_index(i / 10);
        s.append(digit_str(i % 10));
        proof {
            assert(s@ =~= decimal(i as nat));
        }
        s
    }
}

/// Builds the overlay-surface key for capture position `i`.
pub fn surface_key_for(i: usize) -> (r: String)
    ensures
        r@ == surface_key(i as nat),
{
    let mut s = "screenshot_overlay_".to_owned();
    let digits = format_index(i);
    s.append(digits.as_str());
    s
}

} // verus!
