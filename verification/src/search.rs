//! The descending odometer over digit sequences, and the search driver that
//! walks it from all nines down to the first sequence satisfying the
//! terminal predicate.

use vstd::prelude::*;

use crate::predicate::{check_alu, lemma_zero_iff_check, spec_check_alu};
use crate::transform::spec_alu;

verus! {

/// One odometer step downward: the last digit that is not yet at the floor
/// (one) goes down by one, and every digit behind it wraps back to nine. A
/// sequence of all ones wraps around to all nines.
pub open spec fn spec_decrement(s: Seq<i64>) -> Seq<i64>
    decreases s.len(),
{
    if s.len() == 0 {
        s
    } else if s.last() == 1 {
        spec_decrement(s.drop_last()).push(9)
    } else {
        s.update(s.len() - 1, (s.last() - 1) as i64)
    }
}

/// The position of a digit sequence in the enumeration: the sequence read
/// as a base-9 number whose digit `d` stands for `d - 1`. Each odometer
/// step decreases this value by exactly one.
pub open spec fn seq_val(s: Seq<i64>) -> int
    decreases s.len(),
{
    if s.len() == 0 {
        0
    } else {
        seq_val(s.drop_last()) * 9 + (s.last() - 1)
    }
}

/// A sequence of digits at or above one sits at or above zero in the
/// enumeration.
pub proof fn lemma_seq_val_nonneg(s: Seq<i64>)
    requires
        forall|j: int| 0 <= j < s.len() ==> 1 <= #[trigger] s[j],
    ensures
        seq_val(s) >= 0,
    decreases s.len(),
{
    if s.len() > 0 {
        lemma_seq_val_nonneg(s.drop_last());
    }
}

/// Digit-wise dominance orders the enumeration: a sequence whose digits are
/// all at most another's comes no later in the descending walk.
pub proof fn lemma_seq_val_mono(a: Seq<i64>, b: Seq<i64>)
    requires
        a.len() == b.len(),
        forall|j: int| 0 <= j < a.len() ==> #[trigger] a[j] <= #[trigger] b[j],
    ensures
        seq_val(a) <= seq_val(b),
    decreases a.len(),
{
    if a.len() > 0 {
        lemma_seq_val_mono(a.drop_last(), b.drop_last());
    }
}

/// Two digit sequences (digits between one and nine) with the same position
/// in the enumeration are the same sequence.
pub proof fn lemma_seq_val_injective(a: Seq<i64>, b: Seq<i64>)
    requires
        a.len() == b.len(),
        forall|j: int| 0 <= j < a.len() ==> 1 <= #[trigger] a[j] <= 9,
        forall|j: int| 0 <= j < b.len() ==> 1 <= #[trigger] b[j] <= 9,
        seq_val(a) == seq_val(b),
    ensures
        a == b,
    decreases a.len(),
{
    if a.len() == 0 {
        assert(a =~= b);
    } else {
        let a1 = a.drop_last();
        let b1 = b.drop_last();
        let d = seq_val(a1) - seq_val(b1);
        assert(d * 9 == (b.last() - 1) - (a.last() - 1));
        assert(d == 0) by {
            if d >= 1 {
                assert(d * 9 >= 9);
            }
            if d <= -1 {
                assert(d * 9 <= -9);
            }
        }
        lemma_seq_val_injective(a1, b1);
        assert forall|j: int| 0 <= j < a.len() implies a[j] == b[j] by {
            if j < a.len() - 1 {
                assert(a[j] == a1[j]);
                assert(b[j] == b1[j]);
            } else {
                assert(a[j] == a.last() && b[j] == b.last());
            }
        }
        assert(a =~= b);
    }
}

/// Decrementing a sequence whose digits past position `k` are all ones, and
/// whose digit at `k` is not, borrows through exactly those trailing
/// positions: they wrap to nine, the digit at `k` goes down by one, and
/// everything before `k` stays.
pub proof fn lemma_decrement_borrow(s: Seq<i64>, k: int)
    requires
        0 <= k < s.len(),
        forall|j: int| 0 <= j < s.len() ==> 1 <= #[trigger] s[j] <= 9,
        s[k] != 1,
        forall|j: int| k < j < s.len() ==> s[j] == 1,
    ensures
        spec_decrement(s).len() == s.len(),
        forall|j: int| 0 <= j < k ==> spec_decrement(s)[j] == s[j],
        spec_decrement(s)[k] == s[k] - 1,
        forall|j: int| k < j < s.len() ==> spec_decrement(s)[j] == 9,
    decreases s.len(),
{
    if k == s.len() - 1 {
        assert(s.last() == s[k]);
        assert(spec_decrement(s) == s.update(s.len() - 1, (s.last() - 1) as i64));
    } else {
        let s1 = s.drop_last();
        assert(s.last() == s[s.len() - 1] == 1);
        assert(spec_decrement(s) == spec_decrement(s1).push(9));
        assert(forall|j: int| 0 <= j < s1.len() ==> s1[j] == s[j]);
        lemma_decrement_borrow(s1, k);
        assert(spec_decrement(s1).len() == s1.len());
        assert forall|j: int| 0 <= j < k implies spec_decrement(s)[j] == s[j] by {
            assert(spec_decrement(s)[j] == spec_decrement(s1)[j]);
        }
        assert(spec_decrement(s)[k] == spec_decrement(s1)[k]);
        assert forall|j: int| k < j < s.len() implies spec_decrement(s)[j] == 9 by {
            if j < s.len() - 1 {
                assert(spec_decrement(s)[j] == spec_decrement(s1)[j]);
            }
        }
    }
}

/// Decrementing a sequence of all ones wraps every digit to nine.
pub proof fn lemma_decrement_all_ones(s: Seq<i64>)
    requires
        forall|j: int| 0 <= j < s.len() ==> s[j] == 1,
    ensures
        spec_decrement(s).len() == s.len(),
        forall|j: int| 0 <= j < s.len() ==> spec_decrement(s)[j] == 9,
    decreases s.len(),
{
    if s.len() > 0 {
        lemma_decrement_all_ones(s.drop_last());
    }
}

/// Away from the wrap-around (a position above zero in the enumeration),
/// one odometer step keeps every digit between one and nine and moves the
/// sequence down by exactly one position.
pub proof fn lemma_decrement_val(s: Seq<i64>)
    requires
        forall|j: int| 0 <= j < s.len() ==> 1 <= #[trigger] s[j] <= 9,
        seq_val(s) > 0,
    ensures
        spec_decrement(s).len() == s.len(),
        forall|j: int| 0 <= j < s.len() ==> 1 <= #[trigger] spec_decrement(s)[j] <= 9,
        seq_val(spec_decrement(s)) == seq_val(s) - 1,
    decreases s.len(),
{
    let s1 = s.drop_last();
    if s.last() == 1 {
        lemma_seq_val_nonneg(s1);
        assert(seq_val(s) == seq_val(s1) * 9);
        assert(seq_val(s1) >= 1);
        lemma_decrement_val(s1);
        let d1 = spec_decrement(s1);
        assert(spec_decrement(s) == d1.push(9));
        assert(d1.push(9).drop_last() =~= d1);
        assert(seq_val(d1.push(9)) == seq_val(d1) * 9 + 8);
    } else {
        let t = s.update(s.len() - 1, (s.last() - 1) as i64);
        assert(t.drop_last() =~= s1);
        assert(t.last() == s.last() - 1);
        assert(seq_val(t) == seq_val(s1) * 9 + (s.last() - 2));
    }
}

/// One odometer step downward, in place, exactly as the enumerator runs it:
/// scan from the last position backward, wrap ones to nine, and stop the
/// borrow at the first digit that can simply go down by one.
pub fn decrement(digits: &mut Vec<i64>)
    requires
        forall|j: int| 0 <= j < old(digits)@.len() ==> 1 <= #[trigger] old(digits)@[j] <= 9,
    ensures
        final(digits)@ == spec_decrement(old(digits)@),
        final(digits)@.len() == old(digits)@.len(),
        forall|j: int| 0 <= j < final(digits)@.len() ==> 1 <= #[trigger] final(digits)@[j] <= 9,
{
    let ghost orig = digits@;
    let mut i: usize = digits.len();
    while i > 0
        invariant
            orig == old(digits)@,
            i <= orig.len(),
            digits@.len() == orig.len(),
            forall|j: int| 0 <= j < orig.len() ==> 1 <= #[trigger] orig[j] <= 9,
            forall|j: int| 0 <= j < i ==> #[trigger] digits@[j] == orig[j],
            forall|j: int| i <= j < orig.len() ==> #[trigger] orig[j] == 1,
            forall|j: int| i <= j < orig.len() ==> #[trigger] digits@[j] == 9,
        decreases i,
    {
        i = i - 1;
        digits[i] = digits[i] - 1;
        if digits[i] == 0 {
            digits[i] = 9;
        } else {
            proof {
                lemma_decrement_borrow(orig, i as int);
                assert(digits@ =~= spec_decrement(orig));
            }
            return;
        }
    }
    proof {
        lemma_decrement_all_ones(orig);
        assert(digits@ =~= spec_decrement(orig));
    }
}

/// The digits of 94992994195998, the largest valid candidate that the
/// transform folds to zero.
pub open spec fn max_model() -> Seq<i64> {
    seq![9i64, 4i64, 9i64, 9i64, 2i64, 9i64, 9i64, 4i64, 1i64, 9i64, 5i64, 9i64, 9i64, 8i64]
}

/// The digits of 94992994195998 are fourteen digits between one and nine
/// and satisfy the terminal predicate.
pub proof fn lemma_max_model_valid()
    ensures
        max_model().len() == 14,
        forall|j: int| 0 <= j < 14 ==> 1 <= #[trigger] max_model()[j] <= 9,
        spec_check_alu(max_model()),
{
    assert(max_model().len() == 14);
    assert(max_model()[0] == 9);
    assert(max_model()[1] == 4);
    assert(max_model()[2] == 9);
    assert(max_model()[3] == 9);
    assert(max_model()[4] == 2);
    assert(max_model()[5] == 9);
    assert(max_model()[6] == 9);
    assert(max_model()[7] == 4);
    assert(max_model()[8] == 1);
    assert(max_model()[9] == 9);
    assert(max_model()[10] == 5);
    assert(max_model()[11] == 9);
    assert(max_model()[12] == 9);
    assert(max_model()[13] == 8);
    assert forall|j: int| 0 <= j < 14 implies 1 <= #[trigger] max_model()[j] <= 9 by {
    }
}

/// 94992994195998 is the maximum: every valid candidate satisfying the
/// terminal predicate is digit-wise at most its digits, and so comes no
/// later in the enumeration.
pub proof fn lemma_max_model_dominates(s: Seq<i64>)
    requires
        s.len() == 14,
        forall|j: int| 0 <= j < 14 ==> 1 <= #[trigger] s[j] <= 9,
        spec_check_alu(s),
    ensures
        forall|j: int| 0 <= j < 14 ==> #[trigger] s[j] <= max_model()[j],
        seq_val(s) <= seq_val(max_model()),
{
    lemma_max_model_valid();
    assert forall|j: int| 0 <= j < 14 implies #[trigger] s[j] <= max_model()[j] by {
        assert(s[4] == s[5] - 7);
        assert(s[7] == s[6] - 5);
        assert(s[10] == s[9] - 4);
        assert(s[8] == s[3] - 8);
        assert(s[1] == s[12] - 5);
        assert(s[13] == s[0] - 1);
    }
    lemma_seq_val_mono(s, max_model());
}

/// The search driver: starting from all nines, steps the odometer downward
/// and returns the first sequence that satisfies the terminal predicate —
/// the digits of 94992994195998, on which the transform folds to zero.
pub fn search_max() -> (r: Vec<i64>)
    ensures
        r@ == max_model(),
        spec_check_alu(r@),
        spec_alu(r@) == 0,
{
    let mut digits: Vec<i64> = vec![9i64; 14];
    proof {
        lemma_max_model_valid();
        assert(forall|j: int| 0 <= j < 14 ==> #[trigger] digits@[j] == 9);
        lemma_seq_val_mono(max_model(), digits@);
    }
    loop
        invariant
            digits@.len() == 14,
            forall|j: int| 0 <= j < 14 ==> 1 <= #[trigger] digits@[j] <= 9,
            seq_val(digits@) >= seq_val(max_model()),
            !spec_check_alu(digits@),
        decreases seq_val(digits@),
    {
        proof {
            lemma_max_model_valid();
            if seq_val(digits@) == seq_val(max_model()) {
                lemma_seq_val_injective(digits@, max_model());
            }
            lemma_seq_val_nonneg(max_model());
            lemma_decrement_val(digits@);
        }
        decrement(&mut digits);
        if check_alu(&digits) {
            proof {
                lemma_max_model_dominates(digits@);
                lemma_seq_val_injective(digits@, max_model());
                lemma_zero_iff_check(digits@);
            }
            return digits;
        }
    }
}

} // verus!
