//! Character-level string helpers: equality, first occurrence of a
//! character, and splitting, each tied to a spec-level counterpart.

use vstd::prelude::*;

verus! {

/// Character-by-character string comparison.
pub fn str_eq(a: &str, b: &str) -> (r: bool)
    ensures
        r == (a@ == b@),
{
    let a_len = a.unicode_len();
    let b_len = b.unicode_len();
    if a_len != b_len {
        assert(a@ != b@);
        return false;
    }
    let mut i: usize = 0;
    while i < a_len
        invariant
            i <= a_len,
            a_len == a@.len(),
            b_len == b@.len(),
            a_len == b_len,
            forall|k: int| 0 <= k < i ==> a@[k] == b@[k],
        decreases a_len - i,
    {
        if a.get_char(i) != b.get_char(i) {
            assert(a@ != b@);
            return false;
        }
        i = i + 1;
    }
    assert(a@ =~= b@);
    true
}

/// The first index where `c` occurs in `s`, if any.
pub open spec fn spec_first_index(s: Seq<char>, c: char) -> Option<int>
    decreases s.len(),
{
    if s.len() == 0 {
        Option::None
    } else if s[0] == c {
        Option::Some(0int)
    } else {
        match spec_first_index(s.drop_first(), c) {
            Option::None => Option::None,
            Option::Some(i) => Option::Some(i + 1),
        }
    }
}

/// What `spec_first_index` promises: the index it returns holds `c` and
/// nothing before it does; no index means no occurrence at all.
pub proof fn lemma_first_index(s: Seq<char>, c: char)
    ensures
        match spec_first_index(s, c) {
            Option::None => forall|k: int| 0 <= k < s.len() ==> s[k] != c,
            Option::Some(i) => 0 <= i < s.len() && s[i] == c && forall|k: int|
                0 <= k < i ==> s[k] != c,
        },
    decreases s.len(),
{
    if s.len() > 0 && s[0] != c {
        lemma_first_index(s.drop_first(), c);
        match spec_first_index(s.drop_first(), c) {
            Option::None => {
                assert forall|k: int| 0 <= k < s.len() implies s[k] != c by {
                    if k > 0 {
                        assert(s.drop_first()[k - 1] != c);
                    }
                }
            },
            Option::Some(i) => {
                assert(s.drop_first()[i] == s[i + 1]);
                assert forall|k: int| 0 <= k < i + 1 implies s[k] != c by {
                    if k > 0 {
                        assert(s.drop_first()[k - 1] != c);
                    }
                }
            },
        }
    }
}

/// Finds the first occurrence of `c` in `s`, scanning left to right.
pub fn find_char(s: &str, c: char) -> (r: Option<usize>)
    ensures
        match r {
            Option::None => spec_first_index(s@, c) is None,
            Option::Some(i) => spec_first_index(s@, c) == Option::Some(i as int),
        },
{
    let len = s.unicode_len();
    let mut i: usize = 0;
    while i < len
        invariant
            i <= len,
            len == s@.len(),
            forall|k: int| 0 <= k < i ==> s@[k] != c,
        decreases len - i,
    {
        if s.get_char(i) == c {
            proof {
                lemma_first_index(s@, c);
                match spec_first_index(s@, c) {
                    Option::None => {
                        assert(s@[i as int] == c);
                    },
                    Option::Some(fi) => {
                        if fi < i {
                            assert(s@[fi] != c);
                        }
                        if fi > i as int {
                            assert(s@[i as int] != c);
                        }
                    },
                }
            }
            return Option::Some(i);
        }
        i = i + 1;
    }
    proof {
        lemma_first_index(s@, c);
        if spec_first_index(s@, c) is Some {
            let fi = spec_first_index(s@, c)->0;
            assert(s@[fi] != c);
        }
    }
    Option::None
}

} // verus!
