//! Duration conversion: from the decimal seconds value written in a source
//! document to whole milliseconds, truncating toward zero.
//!
//! A seconds value `s` maps to `trunc(s * 1000)` milliseconds: the integer
//! part times 1000 plus the first three fraction digits, scaled. The result
//! saturates at `u64::MAX`, as a cast from a too-large number would.

use vstd::prelude::*;

verus! {

/// Whether a character is a decimal digit.
pub open spec fn is_digit(c: char) -> bool {
    48 <= c as u32 && c as u32 <= 57
}

/// The numeric value of a decimal digit character.
pub open spec fn digit_value(c: char) -> nat {
    (c as u32 - 48) as nat
}

/// Length of the longest digit prefix of `s`.
pub open spec fn digit_prefix_len(s: Seq<char>) -> nat
    decreases s.len(),
{
    if s.len() == 0 || !is_digit(s[0]) {
        0
    } else {
        1 + digit_prefix_len(s.drop_first())
    }
}

/// The number a sequence of digit characters denotes, most significant first.
pub open spec fn digits_value(s: Seq<char>) -> nat
    decreases s.len(),
{
    if s.len() == 0 {
        0
    } else {
        digits_value(s.drop_last()) * 10 + digit_value(s.last())
    }
}

/// The `k`-th digit of the digit prefix of `f`, or 0 past that prefix.
pub open spec fn fraction_digit(f: Seq<char>, k: int) -> nat {
    if 0 <= k < digit_prefix_len(f) {
        digit_value(f[k])
    } else {
        0
    }
}

/// Milliseconds contributed by the fraction digits `f` (what follows the
/// decimal point): the first three digits weighted, further digits truncated.
pub open spec fn fraction_millis(f: Seq<char>) -> nat {
    fraction_digit(f, 0) * 100 + fraction_digit(f, 1) * 10 + fraction_digit(f, 2)
}

/// `trunc(s * 1000)` for a decimal seconds string: the leading digit run is
/// the integer part; a following `.` introduces fraction digits. Anything
/// else, there or later, contributes nothing.
pub open spec fn seconds_to_millis(s: Seq<char>) -> nat {
    let n = digit_prefix_len(s) as int;
    let whole = digits_value(s.take(n)) * 1000;
    if n < s.len() && s[n] == '.' {
        whole + fraction_millis(s.skip(n + 1))
    } else {
        whole
    }
}

/// `seconds_to_millis`, saturated to what a `u64` duration can hold.
pub open spec fn clamped_millis(s: Seq<char>) -> u64 {
    if seconds_to_millis(s) > u64::MAX {
        u64::MAX
    } else {
        seconds_to_millis(s) as u64
    }
}

/// What `digit_prefix_len` promises: it is the first index that is out of
/// range or holds a non-digit.
pub proof fn lemma_digit_prefix_len(s: Seq<char>)
    ensures
        digit_prefix_len(s) <= s.len(),
        forall|k: int| 0 <= k < digit_prefix_len(s) ==> is_digit(s[k]),
        digit_prefix_len(s) < s.len() ==> !is_digit(s[digit_prefix_len(s) as int]),
    decreases s.len(),
{
    if s.len() == 0 || !is_digit(s[0]) {
    } else {
        lemma_digit_prefix_len(s.drop_first());
        assert forall|k: int| 0 <= k < digit_prefix_len(s) implies is_digit(s[k]) by {
            if k > 0 {
                assert(is_digit(s.drop_first()[k - 1]));
            }
        }
    }
}

/// `digit_prefix_len` is pinned by its characterization: if the first `n`
/// characters are digits and the next one is absent or not a digit, the
/// prefix length is `n`.
pub proof fn lemma_digit_prefix_len_is(s: Seq<char>, n: int)
    requires
        0 <= n <= s.len(),
        forall|k: int| 0 <= k < n ==> is_digit(s[k]),
        n < s.len() ==> !is_digit(s[n]),
    ensures
        digit_prefix_len(s) == n,
{
    lemma_digit_prefix_len(s);
    let d = digit_prefix_len(s) as int;
    if d < n {
        assert(is_digit(s[d]));
    } else if d > n {
        assert(is_digit(s[n]));
    }
}

/// Extending a digit string by one digit multiplies its value by ten and
/// adds the new digit.
pub proof fn lemma_digits_value_step(s: Seq<char>, i: int)
    requires
        0 <= i < s.len(),
    ensures
        digits_value(s.take(i + 1)) == digits_value(s.take(i)) * 10 + digit_value(s[i]),
{
    assert(s.take(i + 1).drop_last() =~= s.take(i));
    assert(s.take(i + 1).last() == s[i]);
}

/// Converts a decimal seconds string to truncated milliseconds, saturating
/// at `u64::MAX`.
pub fn seconds_str_to_millis(s: &str) -> (r: u64)
    ensures
        r == clamped_millis(s@),
{
    let len = s.unicode_len();
    let mut i: usize = 0;
    let mut value: u64 = 0;
    let mut saturated = false;
    loop
        invariant
            i <= len,
            len == s@.len(),
            forall|k: int| 0 <= k < i ==> is_digit(s@[k]),
            !saturated ==> value == digits_value(s@.take(i as int)),
            saturated ==> digits_value(s@.take(i as int)) > u64::MAX,
        ensures
            i <= len,
            forall|k: int| 0 <= k < i ==> is_digit(s@[k]),
            i < len ==> !is_digit(s@[i as int]),
            !saturated ==> value == digits_value(s@.take(i as int)),
            saturated ==> digits_value(s@.take(i as int)) > u64::MAX,
        decreases len - i,
    {
        if i >= len {
            break;
        }
        let c = s.get_char(i);
        let code = c as u32;
        if !(48 <= code && code <= 57) {
            break;
        }
        let d = (code - 48) as u64;
        proof {
            lemma_digits_value_step(s@, i as int);
        }
        if !saturated {
            match value.checked_mul(10) {
                Some(v10) => {
                    match v10.checked_add(d) {
                        Some(v) => {
                            value = v;
                        },
                        None => {
                            saturated = true;
                        },
                    }
                },
                None => {
                    saturated = true;
                },
            }
        }
        i = i + 1;
    }
    proof {
        lemma_digit_prefix_len_is(s@, i as int);
    }
    let mut fraction: u64 = 0;
    if i < len && s.get_char(i) == '.' {
        let ghost f = s@.skip(i as int + 1);
        let start = i + 1;
        let mut k: usize = 0;
        let mut scale: u64 = 100;
        loop
            invariant
                0 <= k <= 3,
                start == i + 1 <= len,
                len == s@.len(),
                f == s@.skip(i as int + 1),
                forall|j: int| 0 <= j < k ==> is_digit(f[j]),
                scale == if k == 0 {
                    100u64
                } else if k == 1 {
                    10u64
                } else {
                    1u64
                },
                fraction == fraction_digit_sum(f, k as int),
                fraction <= 999,
            ensures
                0 <= k <= 3,
                forall|j: int| 0 <= j < k ==> is_digit(f[j]),
                k < 3 ==> k >= f.len() || !is_digit(f[k as int]),
                fraction == fraction_digit_sum(f, k as int),
                fraction <= 999,
            decreases 3 - k,
        {
            if k >= 3 || k >= len - start {
                proof {
                    assert(k < 3 ==> k >= f.len());
                }
                break;
            }
            let c = s.get_char(start + k);
            let code = c as u32;
            assert(f[k as int] == s@[start + k as int]);
            if !(48 <= code && code <= 57) {
                break;
            }
            let d = (code - 48) as u64;
            fraction = fraction + scale * d;
            proof {
                lemma_digit_prefix_len(f);
            }
            k = k + 1;
            if scale >= 10 {
                scale = scale / 10;
            }
        }
        proof {
            lemma_digit_prefix_len(f);
            lemma_fraction_digits_settled(f, k as int, len - (i as int + 1));
        }
        assert(fraction == fraction_millis(f));
    }
    if saturated {
        proof {
            lemma_times_thousand_grows(digits_value(s@.take(i as int)));
        }
        return u64::MAX;
    }
    match value.checked_mul(1000) {
        None => u64::MAX,
        Some(m) => match m.checked_add(fraction) {
            None => u64::MAX,
            Some(total) => total,
        },
    }
}

/// Milliseconds contributed by the first `k` fraction digits alone.
pub open spec fn fraction_digit_sum(f: Seq<char>, k: int) -> nat {
    if k <= 0 {
        0
    } else if k == 1 {
        fraction_digit(f, 0) * 100
    } else if k == 2 {
        fraction_digit(f, 0) * 100 + fraction_digit(f, 1) * 10
    } else {
        fraction_millis(f)
    }
}

/// Once the scan of fraction digits stops — after three digits, at the end
/// of the text, or at a non-digit — the digits read so far already give
/// `fraction_millis`.
pub proof fn lemma_fraction_digits_settled(f: Seq<char>, k: int, flen: int)
    requires
        flen == f.len(),
        0 <= k <= 3,
        forall|j: int| 0 <= j < k ==> is_digit(f[j]),
        k < 3 ==> k >= f.len() || !is_digit(f[k]),
    ensures
        fraction_digit_sum(f, k) == fraction_millis(f),
{
    lemma_digit_prefix_len(f);
    if k < 3 {
        if k >= f.len() {
            lemma_digit_prefix_len_is(f, f.len() as int);
            assert(digit_prefix_len(f) == f.len());
        } else {
            lemma_digit_prefix_len_is(f, k);
        }
    }
}

/// A positive count of milliseconds only grows when scaled from seconds.
pub proof fn lemma_times_thousand_grows(a: nat)
    ensures
        a * 1000 >= a,
{
}

} // verus!
