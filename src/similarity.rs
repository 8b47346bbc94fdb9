//! The two string metrics behind a match score, computed by the `strsim`
//! crate, and the facts about them that the ranking relies on.
use vstd::prelude::*;

verus! {

/// Bit pattern of the floating-point value `1.0`.
pub const ONE_BITS: u64 = 0x3FF0_0000_0000_0000;

/// The minimum number of single-character insertions, deletions and
/// substitutions that turn `a` into `b`.
pub open spec fn edit_distance(a: Seq<char>, b: Seq<char>) -> nat
    decreases a.len() + b.len(),
{
    if a.len() == 0 {
        b.len()
    } else if b.len() == 0 {
        a.len()
    } else if a[0] == b[0] {
        edit_distance(a.drop_first(), b.drop_first())
    } else {
        1 + min3(
            edit_distance(a.drop_first(), b),
            edit_distance(a, b.drop_first()),
            edit_distance(a.drop_first(), b.drop_first()),
        )
    }
}

/// The least of three numbers.
pub open spec fn min3(x: nat, y: nat, z: nat) -> nat {
    if x <= y && x <= z {
        x
    } else if y <= z {
        y
    } else {
        z
    }
}

/// Bit pattern of the Jaro-Winkler similarity that `strsim::jaro_winkler`
/// computes for two strings.
pub uninterp spec fn jaro_winkler_bits(a: Seq<char>, b: Seq<char>) -> u64;

/// Relies on `strsim::levenshtein`: the edit distance between the character
/// sequences of the two strings.
#[verifier::external_body]
pub(crate) fn levenshtein(a: &str, b: &str) -> (r: usize)
    ensures
        r == edit_distance(a@, b@),
{
    strsim::levenshtein(a, b)
}

/// Relies on `strsim::jaro_winkler`, handed over as the bit pattern of the
/// `f64` it returns. Its source returns a value in `[0.0, 1.0]` that is never
/// negative zero (so bit patterns order as the values do), exactly `1.0` for
/// two equal character sequences, and `0.0` when exactly one of them is empty.
#[verifier::external_body]
pub(crate) fn jaro_winkler(a: &str, b: &str) -> (r: u64)
    ensures
        r == jaro_winkler_bits(a@, b@),
        r <= ONE_BITS,
        a@ == b@ ==> r == ONE_BITS,
        (a@.len() == 0) != (b@.len() == 0) ==> r == 0,
{
    strsim::jaro_winkler(a, b).to_bits()
}

/// The edit distance of a string to itself is zero.
pub proof fn lemma_edit_distance_self(s: Seq<char>)
    ensures
        edit_distance(s, s) == 0,
    decreases s.len(),
{
    if s.len() > 0 {
        lemma_edit_distance_self(s.drop_first());
    }
}

/// Edit distance does not depend on the order of its arguments.
pub proof fn lemma_edit_distance_symmetric(a: Seq<char>, b: Seq<char>)
    ensures
        edit_distance(a, b) == edit_distance(b, a),
    decreases a.len() + b.len(),
{
    if a.len() > 0 && b.len() > 0 {
        lemma_edit_distance_symmetric(a.drop_first(), b.drop_first());
        lemma_edit_distance_symmetric(a.drop_first(), b);
        lemma_edit_distance_symmetric(a, b.drop_first());
    }
}

} // verus!
