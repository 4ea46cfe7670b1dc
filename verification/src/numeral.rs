//! Reading an argument index out of a numeric literal.
//!
//! A `$`-prefixed number selects an external argument. The index is the
//! decimal value of the literal's leading digits (its integer part); a
//! negative literal selects index zero. The selected position in the
//! argument list is the index plus one.

use vstd::prelude::*;

use crate::lexer::{digit_char, digit_run, digit_run_from};

verus! {

/// The numeric value of a digit character.
pub open spec fn digit_value(c: char) -> int {
    c as int - '0' as int
}

/// The decimal value of a digit sequence, most significant first.
pub open spec fn dec_value(ds: Seq<char>) -> int
    decreases ds.len(),
{
    if ds.len() == 0 {
        0
    } else {
        dec_value(ds.drop_last()) * 10 + digit_value(ds.last())
    }
}

/// Ten to the `k`.
pub open spec fn pow10(k: nat) -> int
    decreases k,
{
    if k == 0 {
        1
    } else {
        10 * pow10((k - 1) as nat)
    }
}

/// The argument index that a literal with the given sign and digit text
/// selects.
pub open spec fn literal_index(negative: bool, digits: Seq<char>) -> int {
    if negative {
        0
    } else {
        dec_value(digits.subrange(0, digit_run(digits, 0)))
    }
}

proof fn lemma_pow10_pos(k: nat)
    ensures
        pow10(k) >= 1,
    decreases k,
{
    if k > 0 {
        lemma_pow10_pos((k - 1) as nat);
    }
}

proof fn lemma_pow10_mono(a: nat, b: nat)
    requires
        a <= b,
    ensures
        1 <= pow10(a) <= pow10(b),
    decreases b,
{
    lemma_pow10_pos(a);
    if a < b {
        lemma_pow10_mono(a, (b - 1) as nat);
        lemma_pow10_pos((b - 1) as nat);
    }
}

proof fn lemma_dec_value_bounds(ds: Seq<char>)
    requires
        forall|k: int| 0 <= k < ds.len() ==> digit_char(ds[k]),
    ensures
        0 <= dec_value(ds) < pow10(ds.len()),
    decreases ds.len(),
{
    if ds.len() > 0 {
        lemma_dec_value_bounds(ds.drop_last());
    }
}

proof fn lemma_dec_value_lower(ds: Seq<char>)
    requires
        forall|k: int| 0 <= k < ds.len() ==> digit_char(ds[k]),
        ds.len() >= 1,
        ds[0] != '0',
    ensures
        dec_value(ds) >= pow10((ds.len() - 1) as nat),
    decreases ds.len(),
{
    assert(digit_char(ds.last()));
    if ds.len() == 1 {
        assert(dec_value(ds) == digit_value(ds[0]));
        assert('1' <= ds[0] <= '9');
    } else {
        assert(ds.drop_last()[0] == ds[0]);
        assert(forall|k: int|
            0 <= k < ds.drop_last().len() ==> digit_char(#[trigger] ds.drop_last()[k]));
        lemma_dec_value_lower(ds.drop_last());
        assert(pow10((ds.len() - 1) as nat) == 10 * pow10((ds.len() - 2) as nat));
        assert(dec_value(ds.drop_last()) * 10 >= pow10((ds.len() - 2) as nat) * 10);
    }
}

proof fn lemma_dec_value_drop_first_zero(ds: Seq<char>)
    requires
        ds.len() >= 1,
        ds[0] == '0',
    ensures
        dec_value(ds) == dec_value(ds.drop_first()),
    decreases ds.len(),
{
    if ds.len() == 1 {
        assert(ds.drop_first() =~= Seq::<char>::empty());
        assert(ds.last() == ds[0]);
        assert(dec_value(ds) == dec_value(ds.drop_last()) * 10 + digit_value(ds.last()));
        assert(digit_value(ds[0]) == 0);
    } else {
        assert(ds.drop_last()[0] == ds[0]);
        lemma_dec_value_drop_first_zero(ds.drop_last());
        assert(ds.drop_first().drop_last() =~= ds.drop_last().drop_first());
        assert(ds.drop_first().last() == ds.last());
        assert(dec_value(ds.drop_first()) == dec_value(ds.drop_first().drop_last()) * 10
            + digit_value(ds.drop_first().last()));
    }
}

proof fn lemma_dec_value_skip_zeros(ds: Seq<char>, k: int)
    requires
        0 <= k <= ds.len(),
        forall|j: int| 0 <= j < k ==> ds[j] == '0',
    ensures
        dec_value(ds) == dec_value(ds.subrange(k, ds.len() as int)),
    decreases k,
{
    if k == 0 {
        assert(ds.subrange(0, ds.len() as int) =~= ds);
    } else {
        lemma_dec_value_drop_first_zero(ds);
        lemma_dec_value_skip_zeros(ds.drop_first(), k - 1);
        assert(ds.drop_first().subrange(k - 1, ds.drop_first().len() as int) =~= ds.subrange(
            k,
            ds.len() as int,
        ));
    }
}

proof fn lemma_digit_run_digits(s: Seq<char>, i: int)
    requires
        0 <= i <= s.len(),
    ensures
        forall|j: int| i <= j < i + digit_run(s, i) ==> digit_char(s[j]),
    decreases s.len() - i,
{
    if i < s.len() && digit_char(s[i]) {
        lemma_digit_run_digits(s, i + 1);
    }
}

/// The argument position (index plus one) that a literal selects, when
/// it falls inside a list of `limit` arguments; `None` when it does not.
pub fn literal_position(negative: bool, digits: &str, limit: usize) -> (r: Option<usize>)
    ensures
        match r {
            Some(p) => p == literal_index(negative, digits@) + 1 && p < limit,
            None => literal_index(negative, digits@) + 1 >= limit,
        },
{
    if negative {
        if 1 < limit {
            Some(1)
        } else {
            None
        }
    } else {
        let n = digits.unicode_len();
        let run = digit_run_from(digits, 0, n);
        let ghost intseq = digits@.subrange(0, run as int);
        proof {
            lemma_digit_run_digits(digits@, 0);
            assert(forall|j: int| 0 <= j < intseq.len() ==> digit_char(#[trigger] intseq[j]));
        }
        let mut z: usize = 0;
        while z < run && digits.get_char(z) == '0'
            invariant
                z <= run,
                run <= n,
                n == digits@.len(),
                run as int == digit_run(digits@, 0),
                intseq == digits@.subrange(0, run as int),
                forall|j: int| 0 <= j < z ==> intseq[j] == '0',
            decreases run - z,
        {
            z = z + 1;
        }
        let ghost rest = intseq.subrange(z as int, run as int);
        proof {
            lemma_dec_value_skip_zeros(intseq, z as int);
            assert(forall|j: int| 0 <= j < rest.len() ==> digit_char(#[trigger] rest[j]));
        }
        if run - z > 20 {
            proof {
                lemma_dec_value_lower(rest);
                lemma_pow10_mono(20, (rest.len() - 1) as nat);
                assert(pow10(20) == 100000000000000000000) by {
                    reveal_with_fuel(pow10, 21);
                }
            }
            None
        } else {
            let mut acc: u128 = 0;
            let mut k: usize = z;
            while k < run
                invariant
                    z <= k <= run,
                    run <= n,
                    n == digits@.len(),
                    run as int == digit_run(digits@, 0),
                    intseq == digits@.subrange(0, run as int),
                    rest == intseq.subrange(z as int, run as int),
                    run - z <= 20,
                    forall|j: int| 0 <= j < rest.len() ==> digit_char(#[trigger] rest[j]),
                    acc as int == dec_value(intseq.subrange(z as int, k as int)),
                    (acc as int) < pow10((k - z) as nat),
                decreases run - k,
            {
                let c = digits.get_char(k);
                proof {
                    assert(intseq[k as int] == rest[k - z]);
                    assert(digit_char(rest[k - z]));
                    assert(c == intseq[k as int]);
                    assert(intseq.subrange(z as int, k + 1).drop_last() =~= intseq.subrange(
                        z as int,
                        k as int,
                    ));
                    lemma_pow10_mono((k - z) as nat, 20);
                    assert(pow10(20) == 100000000000000000000) by {
                        reveal_with_fuel(pow10, 21);
                    }
                }
                let d = (c as u32) - 48;
                acc = acc * 10 + (d as u128);
                k = k + 1;
            }
            proof {
                assert(intseq.subrange(z as int, run as int) == rest);
                lemma_pow10_mono((run - z) as nat, 20);
                assert(pow10(20) == 100000000000000000000) by {
                    reveal_with_fuel(pow10, 21);
                }
            }
            if acc + 1 < limit as u128 {
                Some((acc as usize) + 1)
            } else {
                None
            }
        }
    }
}

} // verus!
