//! Case-insensitive comparison of digest texts.
use vstd::prelude::*;

verus! {

/// A character's code with ASCII uppercase letters folded to lowercase.
pub open spec fn fold_case(c: char) -> u32 {
    let x = c as u32;
    if 65 <= x <= 90 {
        (x + 32) as u32
    } else {
        x
    }
}

/// Equal text up to the case of ASCII letters.
pub open spec fn eq_ignore_ascii_case(a: Seq<char>, b: Seq<char>) -> bool {
    a.len() == b.len() && forall|i: int| 0 <= i < a.len() ==> fold_case(#[trigger] a[i]) == fold_case(b[i])
}

fn fold_char(c: char) -> (r: u32)
    ensures
        r == fold_case(c),
{
    let x = c as u32;
    if 65 <= x && x <= 90 {
        x + 32
    } else {
        x
    }
}

/// Whether two digest texts are equal up to the case of ASCII letters.
pub fn digests_match(a: &str, b: &str) -> (r: bool)
    ensures
        r == eq_ignore_ascii_case(a@, b@),
{
    let n = a.unicode_len();
    if n != b.unicode_len() {
        return false;
    }
    let mut i: usize = 0;
    while i < n
        invariant
            n == a@.len(),
            n == b@.len(),
            i <= n,
            forall|j: int| 0 <= j < i ==> fold_case(#[trigger] a@[j]) == fold_case(b@[j]),
        decreases n - i,
    {
        if fold_char(a.get_char(i)) != fold_char(b.get_char(i)) {
            return false;
        }
        i += 1;
    }
    true
}

/// Two texts that differ at most in the case of ASCII letters are judged a
/// match.
pub proof fn lemma_case_insensitive_match(a: Seq<char>, b: Seq<char>)
    requires
        a.len() == b.len(),
        forall|i: int|
            0 <= i < a.len() ==> (#[trigger] a[i] == b[i] || (a[i] as u32 + 32 == b[i] as u32 && 65
                <= a[i] as u32 <= 90) || (b[i] as u32 + 32 == a[i] as u32 && 65 <= b[i] as u32
                <= 90)),
    ensures
        eq_ignore_ascii_case(a, b),
{
}

} // verus!
