//! Decimal rendering of identifiers: a specification of the decimal
//! representation of a natural number and an executable conversion from
//! `u32` to `String` proved against it.

use vstd::prelude::*;
use vstd::string::StringExecFns;

verus! {

/// The character standing for a single decimal digit.
pub open spec fn digit_char(d: nat) -> char
    recommends
        d < 10,
{
    if d == 0 {
        '0'
    } else if d == 1 {
        '1'
    } else if d == 2 {
        '2'
    } else if d == 3 {
        '3'
    } else if d == 4 {
        '4'
    } else if d == 5 {
        '5'
    } else if d == 6 {
        '6'
    } else if d == 7 {
        '7'
    } else if d == 8 {
        '8'
    } else {
        '9'
    }
}

/// The decimal representation of a natural number, most significant digit
/// first, without leading zeros (zero itself is written as one digit).
pub open spec fn decimal_rep(n: nat) -> Seq<char>
    decreases n,
{
    if n < 10 {
        seq![digit_char(n)]
    } else {
        decimal_rep(n / 10) + seq![digit_char(n % 10)]
    }
}

proof fn lemma_digit_char_injective(a: nat, b: nat)
    requires
        a < 10,
        b < 10,
        digit_char(a) == digit_char(b),
    ensures
        a == b,
{
}

proof fn lemma_decimal_rep_nonempty(n: nat)
    ensures
        decimal_rep(n).len() >= 1,
    decreases n,
{
    if n >= 10 {
        lemma_decimal_rep_nonempty(n / 10);
    }
}

/// The decimal representation determines the number: two numbers that
/// render alike are equal.
pub proof fn lemma_decimal_rep_injective(a: nat, b: nat)
    requires
        decimal_rep(a) == decimal_rep(b),
    ensures
        a == b,
    decreases a,
{
    if a < 10 && b < 10 {
        assert(decimal_rep(a)[0] == digit_char(a));
        assert(decimal_rep(b)[0] == digit_char(b));
        lemma_digit_char_injective(a, b);
    } else if a < 10 {
        lemma_decimal_rep_nonempty(b / 10);
        assert(decimal_rep(b).len() >= 2);
    } else if b < 10 {
        lemma_decimal_rep_nonempty(a / 10);
        assert(decimal_rep(a).len() >= 2);
    } else {
        let pa = decimal_rep(a / 10);
        let pb = decimal_rep(b / 10);
        assert(decimal_rep(a).len() == pa.len() + 1);
        assert(decimal_rep(b).len() == pb.len() + 1);
        assert(decimal_rep(a)[pa.len() as int] == digit_char(a % 10));
        assert(decimal_rep(b)[pb.len() as int] == digit_char(b % 10));
        lemma_digit_char_injective(a % 10, b % 10);
        assert forall|k: int| 0 <= k < pa.len() implies pa[k] == pb[k] by {
            assert(decimal_rep(a)[k] == pa[k]);
            assert(decimal_rep(b)[k] == pb[k]);
        }
        assert(pa =~= pb);
        lemma_decimal_rep_injective(a / 10, b / 10);
    }
}

fn digit_str(d: u32) -> (s: &'static str)
    requires
        d < 10,
    ensures
        s@ == seq![digit_char(d as nat)],
{
    let s: &'static str = if d == 0 {
        "0"
    } else if d == 1 {
        "1"
    } else if d == 2 {
        "2"
    } else if d == 3 {
        "3"
    } else if d == 4 {
        "4"
    } else if d == 5 {
        "5"
    } else if d == 6 {
        "6"
    } else if d == 7 {
        "7"
    } else if d == 8 {
        "8"
    } else {
        "9"
    };
    proof {
        reveal_strlit("0");
        reveal_strlit("1");
        reveal_strlit("2");
        reveal_strlit("3");
        reveal_strlit("4");
        reveal_strlit("5");
        reveal_strlit("6");
        reveal_strlit("7");
        reveal_strlit("8");
        reveal_strlit("9");
        assert(s@ =~= seq![digit_char(d as nat)]);
    }
    s
}

/// Renders `n` in decimal, exactly as `decimal_rep` describes.
pub fn u32_to_decimal(n: u32) -> (s: String)
    ensures
        s@ == decimal_rep(n as nat),
    decreases n,
{
    if n < 10 {
        digit_str(n).to_owned()
    } else {
        let prefix = u32_to_decimal(n / 10);
        prefix.concat(digit_str(n % 10))
    }
}

} // verus!
