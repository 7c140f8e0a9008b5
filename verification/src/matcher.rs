//! The matcher: decides whether an encoded candidate fits the pattern's
//! variant set, either as an exact prefix or as a contiguous substring.
//! Comparison is byte-for-byte; case-insensitivity comes entirely from
//! variant expansion, never from relaxed comparison.

use vstd::prelude::*;

use crate::pattern::views;

verus! {

/// The search mode: test the variants against the start of the candidate
/// or against every window of it.
#[derive(Clone, Copy, Debug, PartialEq, Eq, Structural)]
pub enum MatchMode {
    Prefix,
    Substring,
}

/// Whether the candidate's first len(v) bytes equal `v` exactly.
pub open spec fn is_prefix_match(c: Seq<u8>, v: Seq<u8>) -> bool {
    &&& v.len() <= c.len()
    &&& c.take(v.len() as int) == v
}

/// Whether the window of the candidate starting at `i` equals `v` exactly.
pub open spec fn window_match_at(c: Seq<u8>, v: Seq<u8>, i: int) -> bool {
    &&& 0 <= i
    &&& i + v.len() <= c.len()
    &&& c.subrange(i, i + v.len()) == v
}

/// Whether `v` appears as a contiguous window anywhere in the candidate.
pub open spec fn is_substring_match(c: Seq<u8>, v: Seq<u8>) -> bool {
    exists|i: int| window_match_at(c, v, i)
}

/// Whether one variant matches the candidate under the given mode.
pub open spec fn variant_matches(c: Seq<u8>, v: Seq<u8>, mode: MatchMode) -> bool {
    match mode {
        MatchMode::Prefix => is_prefix_match(c, v),
        MatchMode::Substring => is_substring_match(c, v),
    }
}

/// Whether any variant of the set matches the candidate under the mode.
pub open spec fn matches_spec(c: Seq<u8>, vs: Seq<Seq<u8>>, mode: MatchMode) -> bool {
    exists|k: int| 0 <= k < vs.len() && variant_matches(c, #[trigger] vs[k], mode)
}

/// The indices of the variants that match the candidate, in ascending
/// order, one entry per matching variant.
pub open spec fn matching_indices(c: Seq<u8>, vs: Seq<Seq<u8>>, mode: MatchMode) -> Seq<int>
    decreases vs.len(),
{
    if vs.len() == 0 {
        Seq::empty()
    } else {
        matching_indices(c, vs.drop_last(), mode) + if variant_matches(c, vs.last(), mode) {
            seq![vs.len() - 1]
        } else {
            Seq::empty()
        }
    }
}

/// The reporting law: the matching indices are exactly the indices of
/// the variants that match the candidate, and they are strictly
/// ascending, so each matching variant is reported exactly once.
pub proof fn lemma_matching_indices(c: Seq<u8>, vs: Seq<Seq<u8>>, mode: MatchMode)
    ensures
        forall|k: int|
            #[trigger] matching_indices(c, vs, mode).contains(k) <==> (0 <= k < vs.len()
                && variant_matches(c, vs[k], mode)),
        forall|i: int, j: int|
            0 <= i < j < matching_indices(c, vs, mode).len() ==> matching_indices(c, vs, mode)[i]
                < matching_indices(c, vs, mode)[j],
    decreases vs.len(),
{
    let mi = matching_indices(c, vs, mode);
    if vs.len() > 0 {
        let prev = vs.drop_last();
        let pmi = matching_indices(c, prev, mode);
        lemma_matching_indices(c, prev, mode);
        assert forall|k: int| #[trigger] mi.contains(k) implies (0 <= k < vs.len()
            && variant_matches(c, vs[k], mode)) by {
            let i = choose|i: int| 0 <= i < mi.len() && mi[i] == k;
            if i < pmi.len() {
                assert(pmi[i] == k);
                assert(pmi.contains(k));
                assert(prev[k] == vs[k]);
            } else {
                assert(k == vs.len() - 1);
                assert(vs.last() == vs[vs.len() - 1]);
            }
        }
        assert forall|k: int| (0 <= k < vs.len() && variant_matches(c, vs[k], mode)) implies
            #[trigger] mi.contains(k) by {
            if k < vs.len() - 1 {
                assert(prev[k] == vs[k]);
                assert(pmi.contains(k));
                let i = choose|i: int| 0 <= i < pmi.len() && pmi[i] == k;
                assert(mi[i] == k);
            } else {
                assert(vs.last() == vs[vs.len() - 1]);
                assert(mi[pmi.len() as int] == k);
            }
        }
        assert forall|i: int, j: int| 0 <= i < j < mi.len() implies mi[i] < mi[j] by {
            if j < pmi.len() {
                assert(mi[i] == pmi[i] && mi[j] == pmi[j]);
            } else {
                assert(mi[j] == vs.len() - 1);
                assert(mi[i] == pmi[i]);
                assert(pmi.contains(pmi[i]));
                assert(pmi[i] < prev.len());
            }
        }
    }
}

/// A singleton variant set matches as a prefix exactly when the
/// candidate's first len(v) bytes equal the variant.
pub proof fn lemma_prefix_match_singleton(c: Seq<u8>, v: Seq<u8>)
    ensures
        matches_spec(c, seq![v], MatchMode::Prefix) == is_prefix_match(c, v),
{
    if is_prefix_match(c, v) {
        assert(variant_matches(c, seq![v][0], MatchMode::Prefix));
    }
}

/// A singleton variant set matches as a substring exactly when some
/// window of the candidate of the variant's length equals the variant.
pub proof fn lemma_substring_match_singleton(c: Seq<u8>, v: Seq<u8>)
    ensures
        matches_spec(c, seq![v], MatchMode::Substring) == is_substring_match(c, v),
{
    if is_substring_match(c, v) {
        assert(variant_matches(c, seq![v][0], MatchMode::Substring));
    }
}

/// Whether the candidate starts with the variant's exact bytes.
pub fn starts_with_variant(candidate: &Vec<u8>, variant: &Vec<u8>) -> (r: bool)
    ensures
        r == is_prefix_match(candidate@, variant@),
{
    if variant.len() > candidate.len() {
        return false;
    }
    let mut k: usize = 0;
    while k < variant.len()
        invariant
            k <= variant@.len(),
            variant@.len() <= candidate@.len(),
            forall|m: int| 0 <= m < k ==> candidate@[m] == variant@[m],
        decreases variant@.len() - k,
    {
        if candidate[k] != variant[k] {
            proof {
                assert(candidate@.take(variant@.len() as int)[k as int] != variant@[k as int]);
            }
            return false;
        }
        k += 1;
    }
    proof {
        assert(candidate@.take(variant@.len() as int) =~= variant@);
    }
    true
}

/// Whether the candidate's window starting at `start` equals the variant,
/// tested byte-by-byte through bitwise XOR as the equality test.
fn window_equals_xor(candidate: &Vec<u8>, variant: &Vec<u8>, start: usize) -> (r: bool)
    requires
        start + variant@.len() <= candidate@.len(),
    ensures
        r == window_match_at(candidate@, variant@, start as int),
{
    let clen = candidate.len();
    let mut k: usize = 0;
    while k < variant.len()
        invariant
            k <= variant@.len(),
            start + variant@.len() <= candidate@.len(),
            candidate@.len() == clen,
            forall|m: int| 0 <= m < k ==> candidate@[start + m] == variant@[m],
        decreases variant@.len() - k,
    {
        let a = candidate[start + k];
        let b = variant[k];
        if (a ^ b) != 0 {
            proof {
                assert(a ^ b != 0 ==> a != b) by (bit_vector);
                assert(candidate@.subrange(start as int, start + variant@.len())[k as int] != variant@[k as int]);
            }
            return false;
        }
        proof {
            assert(a ^ b == 0 ==> a == b) by (bit_vector);
        }
        k += 1;
    }
    proof {
        assert(candidate@.subrange(start as int, start + variant@.len()) =~= variant@);
    }
    true
}

/// Whether the variant appears as a contiguous window anywhere in the
/// candidate, each window tested byte-by-byte through bitwise XOR.
pub fn contains_subsequence_xor(encoded: &Vec<u8>, prefix: &Vec<u8>) -> (r: bool)
    ensures
        r == is_substring_match(encoded@, prefix@),
{
    if prefix.len() > encoded.len() {
        proof {
            assert forall|i: int| !window_match_at(encoded@, prefix@, i) by {}
        }
        return false;
    }
    let last_start = encoded.len() - prefix.len();
    let mut start: usize = 0;
    loop
        invariant
            prefix@.len() <= encoded@.len(),
            last_start == encoded@.len() - prefix@.len(),
            start <= last_start,
            forall|i: int| 0 <= i < start ==> !window_match_at(encoded@, prefix@, i),
        ensures
            forall|i: int| 0 <= i <= last_start ==> !window_match_at(encoded@, prefix@, i),
        decreases last_start - start,
    {
        if window_equals_xor(encoded, prefix, start) {
            return true;
        }
        if start == last_start {
            break;
        }
        start += 1;
    }
    proof {
        assert forall|i: int| !window_match_at(encoded@, prefix@, i) by {
            if 0 <= i <= last_start {
                assert(!window_match_at(encoded@, prefix@, i));
            }
        }
    }
    false
}

/// Whether one variant matches the candidate under the given mode.
fn variant_condition(candidate: &Vec<u8>, variant: &Vec<u8>, mode: MatchMode) -> (r: bool)
    ensures
        r == variant_matches(candidate@, variant@, mode),
{
    match mode {
        MatchMode::Prefix => starts_with_variant(candidate, variant),
        MatchMode::Substring => contains_subsequence_xor(candidate, variant),
    }
}

/// Whether any variant of the set matches the candidate under the mode.
pub fn matches(candidate: &Vec<u8>, variants: &Vec<Vec<u8>>, mode: MatchMode) -> (r: bool)
    ensures
        r == matches_spec(candidate@, views(variants@), mode),
{
    let mut k: usize = 0;
    while k < variants.len()
        invariant
            k <= variants@.len(),
            forall|m: int|
                0 <= m < k ==> !variant_matches(candidate@, #[trigger] views(variants@)[m], mode),
        decreases variants@.len() - k,
    {
        if variant_condition(candidate, &variants[k], mode) {
            proof {
                assert(variant_matches(candidate@, views(variants@)[k as int], mode));
            }
            return true;
        }
        k += 1;
    }
    false
}

/// The indices of the variants that match the candidate, in ascending
/// order: the candidate is reported once per matching variant.
pub fn match_indices(candidate: &Vec<u8>, variants: &Vec<Vec<u8>>, mode: MatchMode) -> (r: Vec<
    usize,
>)
    ensures
        r@.map_values(|u: usize| u as int) == matching_indices(
            candidate@,
            views(variants@),
            mode,
        ),
{
    let ghost vs = views(variants@);
    let mut r: Vec<usize> = Vec::new();
    let mut k: usize = 0;
    while k < variants.len()
        invariant
            k <= variants@.len(),
            vs == views(variants@),
            r@.map_values(|u: usize| u as int) == matching_indices(
                candidate@,
                vs.take(k as int),
                mode,
            ),
        decreases variants@.len() - k,
    {
        proof {
            assert(vs.take(k + 1).drop_last() =~= vs.take(k as int));
            assert(vs.take(k + 1).last() == vs[k as int]);
        }
        if variant_condition(candidate, &variants[k], mode) {
            r.push(k);
            proof {
                assert(r@.map_values(|u: usize| u as int) =~= matching_indices(
                    candidate@,
                    vs.take(k + 1),
                    mode,
                ));
            }
        } else {
            proof {
                assert(r@.map_values(|u: usize| u as int) =~= matching_indices(
                    candidate@,
                    vs.take(k + 1),
                    mode,
                ));
            }
        }
        k += 1;
    }
    proof {
        assert(vs.take(variants@.len() as int) =~= vs);
    }
    r
}

} // verus!
