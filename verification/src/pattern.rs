//! Pattern expansion: turns the target string into the set of byte-string
//! variants to match against. With case-insensitivity enabled, every
//! ASCII letter that is valid in base58 branches into its lowercase and
//! uppercase form; all other characters pass through unchanged.

use vstd::prelude::*;

verus! {

/// The views of a sequence of byte vectors.
pub open spec fn views(vs: Seq<Vec<u8>>) -> Seq<Seq<u8>> {
    vs.map_values(|v: Vec<u8>| v@)
}

/// The byte a character contributes to a variant: the low 8 bits of its
/// code point.
pub open spec fn byte_of(c: char) -> u8 {
    ((c as int) % 256) as u8
}

/// Whether a character branches into two cases: an ASCII letter
/// (code points 97..=122 are 'a'..='z', 65..=90 are 'A'..='Z') that is
/// not one of the base58-excluded letters 'O' (79), 'I' (73), 'l' (108).
pub open spec fn is_branchable(c: char) -> bool {
    let code = c as int;
    &&& (97 <= code && code <= 122) || (65 <= code && code <= 90)
    &&& code != 79
    &&& code != 73
    &&& code != 108
}

/// The lowercase byte of a character: ASCII uppercase letters move down
/// into 'a'..='z', everything else keeps its byte.
pub open spec fn lower_byte(c: char) -> u8 {
    let code = c as int;
    if 65 <= code && code <= 90 {
        (code + 32) as u8
    } else {
        byte_of(c)
    }
}

/// The uppercase byte of a character: ASCII lowercase letters move up
/// into 'A'..='Z', everything else keeps its byte.
pub open spec fn upper_byte(c: char) -> u8 {
    let code = c as int;
    if 97 <= code && code <= 122 {
        (code - 32) as u8
    } else {
        byte_of(c)
    }
}

/// The pattern's characters as bytes, one byte per character.
pub open spec fn bytes_of(s: Seq<char>) -> Seq<u8> {
    Seq::new(s.len(), |i: int| byte_of(s[i]))
}

/// How many characters of the pattern branch into two cases.
pub open spec fn branch_count(s: Seq<char>) -> nat
    decreases s.len(),
{
    if s.len() == 0 {
        0
    } else {
        branch_count(s.drop_last()) + if is_branchable(s.last()) {
            1nat
        } else {
            0nat
        }
    }
}

/// 2 to the power k.
pub open spec fn pow2(k: nat) -> nat
    decreases k,
{
    if k == 0 {
        1
    } else {
        2 * pow2((k - 1) as nat)
    }
}

/// One expansion step: every variant in `vs` is extended by the byte of
/// `c`; a branchable character extends each variant twice, first with its
/// lowercase byte, then with its uppercase byte.
pub open spec fn extend_all(vs: Seq<Seq<u8>>, c: char) -> Seq<Seq<u8>>
    decreases vs.len(),
{
    if vs.len() == 0 {
        Seq::empty()
    } else {
        let rest = extend_all(vs.drop_last(), c);
        if is_branchable(c) {
            rest + seq![vs.last().push(lower_byte(c)), vs.last().push(upper_byte(c))]
        } else {
            rest + seq![vs.last().push(byte_of(c))]
        }
    }
}

/// The full variant set of a pattern: the Cartesian product of the case
/// choices at every branchable position, in the order the expansion loop
/// produces it.
pub open spec fn variants_of(s: Seq<char>) -> Seq<Seq<u8>>
    decreases s.len(),
{
    if s.len() == 0 {
        seq![Seq::<u8>::empty()]
    } else {
        extend_all(variants_of(s.drop_last()), s.last())
    }
}

/// Whether `b` is a byte the character `c` may contribute to a variant.
pub open spec fn variant_byte_ok(c: char, b: u8) -> bool {
    if is_branchable(c) {
        b == lower_byte(c) || b == upper_byte(c)
    } else {
        b == byte_of(c)
    }
}

/// Whether `v` is a well-formed variant of the pattern `s`: it has one
/// byte per character, and differs from the pattern only in the case of
/// branchable positions.
pub open spec fn variant_ok(s: Seq<char>, v: Seq<u8>) -> bool {
    &&& v.len() == s.len()
    &&& forall|p: int| 0 <= p < s.len() ==> variant_byte_ok(s[p], #[trigger] v[p])
}

proof fn lemma_extend_all_len(vs: Seq<Seq<u8>>, c: char)
    ensures
        extend_all(vs, c).len() == if is_branchable(c) {
            2 * vs.len()
        } else {
            vs.len()
        },
    decreases vs.len(),
{
    if vs.len() > 0 {
        lemma_extend_all_len(vs.drop_last(), c);
    }
}

proof fn lemma_extend_all_index(vs: Seq<Seq<u8>>, c: char)
    ensures
        is_branchable(c) ==> forall|i: int|
            0 <= i < 2 * vs.len() ==> #[trigger] extend_all(vs, c)[i] == vs[i / 2].push(
                if i % 2 == 0 {
                    lower_byte(c)
                } else {
                    upper_byte(c)
                },
            ),
        !is_branchable(c) ==> forall|i: int|
            0 <= i < vs.len() ==> #[trigger] extend_all(vs, c)[i] == vs[i].push(byte_of(c)),
    decreases vs.len(),
{
    lemma_extend_all_len(vs, c);
    if vs.len() > 0 {
        let prev = vs.drop_last();
        lemma_extend_all_index(prev, c);
        lemma_extend_all_len(prev, c);
        let n = vs.len() as int;
        if is_branchable(c) {
            assert forall|i: int| 0 <= i < 2 * n implies #[trigger] extend_all(vs, c)[i] == vs[i
                / 2].push(
                if i % 2 == 0 {
                    lower_byte(c)
                } else {
                    upper_byte(c)
                },
            ) by {
                if i < 2 * (n - 1) {
                    assert(extend_all(vs, c)[i] == extend_all(prev, c)[i]);
                    assert(0 <= i / 2 < n - 1);
                    assert(prev[i / 2] == vs[i / 2]);
                } else {
                    assert(i == 2 * n - 2 || i == 2 * n - 1);
                    assert((2 * n - 2) / 2 == n - 1);
                    assert((2 * n - 1) / 2 == n - 1);
                    assert((2 * n - 2) % 2 == 0);
                    assert((2 * n - 1) % 2 == 1);
                    assert(vs.last() == vs[n - 1]);
                }
            }
        } else {
            assert forall|i: int| 0 <= i < n implies #[trigger] extend_all(vs, c)[i] == vs[i].push(
                byte_of(c),
            ) by {
                if i < n - 1 {
                    assert(extend_all(vs, c)[i] == extend_all(prev, c)[i]);
                    assert(prev[i] == vs[i]);
                } else {
                    assert(vs.last() == vs[n - 1]);
                }
            }
        }
    }
}

/// The expansion law: a pattern with k branchable characters has exactly
/// 2^k variants, each one byte per pattern character, and each differing
/// from the pattern only in the case of branchable positions.
pub proof fn lemma_variant_expansion(s: Seq<char>)
    ensures
        variants_of(s).len() == pow2(branch_count(s)),
        forall|i: int| 0 <= i < variants_of(s).len() ==> variant_ok(s, #[trigger] variants_of(s)[i]),
    decreases s.len(),
{
    if s.len() == 0 {
        assert(variant_ok(s, variants_of(s)[0]));
    } else {
        let prev = s.drop_last();
        let c = s.last();
        let pv = variants_of(prev);
        lemma_variant_expansion(prev);
        lemma_extend_all_len(pv, c);
        lemma_extend_all_index(pv, c);
        assert forall|i: int| 0 <= i < variants_of(s).len() implies variant_ok(
            s,
            #[trigger] variants_of(s)[i],
        ) by {
            if is_branchable(c) {
                let j = i / 2;
                assert(0 <= j < pv.len());
                let v = variants_of(s)[i];
                assert(v == pv[j].push(
                    if i % 2 == 0 {
                        lower_byte(c)
                    } else {
                        upper_byte(c)
                    },
                ));
                assert(variant_ok(prev, pv[j]));
                assert forall|p: int| 0 <= p < s.len() implies variant_byte_ok(
                    s[p],
                    #[trigger] v[p],
                ) by {
                    if p < s.len() - 1 {
                        assert(v[p] == pv[j][p]);
                        assert(s[p] == prev[p]);
                    } else {
                        assert(v[p] == v.last());
                        assert(s[p] == c);
                    }
                }
            } else {
                let v = variants_of(s)[i];
                assert(v == pv[i].push(byte_of(c)));
                assert(variant_ok(prev, pv[i]));
                assert forall|p: int| 0 <= p < s.len() implies variant_byte_ok(
                    s[p],
                    #[trigger] v[p],
                ) by {
                    if p < s.len() - 1 {
                        assert(v[p] == pv[i][p]);
                        assert(s[p] == prev[p]);
                    } else {
                        assert(v[p] == v.last());
                        assert(s[p] == c);
                    }
                }
            }
        }
    }
}

/// The variants of a pattern are pairwise distinct, so the expansion
/// yields exactly 2^k different byte strings.
pub proof fn lemma_variants_distinct(s: Seq<char>)
    ensures
        forall|i: int, j: int|
            0 <= i < j < variants_of(s).len() ==> variants_of(s)[i] != variants_of(s)[j],
    decreases s.len(),
{
    if s.len() > 0 {
        let prev = s.drop_last();
        let c = s.last();
        let pv = variants_of(prev);
        lemma_variants_distinct(prev);
        lemma_variant_expansion(prev);
        lemma_extend_all_len(pv, c);
        lemma_extend_all_index(pv, c);
        let vl = prev.len() as int;
        assert forall|i: int, j: int| 0 <= i < j < variants_of(s).len() implies variants_of(s)[i]
            != variants_of(s)[j] by {
            let a = variants_of(s)[i];
            let b = variants_of(s)[j];
            if is_branchable(c) {
                let pa = pv[i / 2];
                let pb = pv[j / 2];
                if i / 2 == j / 2 {
                    // Same stem, so the appended case bytes differ.
                    assert(i % 2 == 0 && j % 2 == 1);
                    assert(a.last() == lower_byte(c));
                    assert(b.last() == upper_byte(c));
                    assert(lower_byte(c) != upper_byte(c));
                } else {
                    assert(variant_ok(prev, pa) && variant_ok(prev, pb));
                    assert(pa != pb);
                    if forall|p: int| 0 <= p < vl ==> pa[p] == pb[p] {
                        assert(pa =~= pb);
                    }
                    let p = choose|p: int| 0 <= p < vl && pa[p] != pb[p];
                    assert(a[p] != b[p]);
                }
            } else {
                let pa = pv[i];
                let pb = pv[j];
                assert(variant_ok(prev, pa) && variant_ok(prev, pb));
                assert(pa != pb);
                if forall|p: int| 0 <= p < vl ==> pa[p] == pb[p] {
                    assert(pa =~= pb);
                }
                let p = choose|p: int| 0 <= p < vl && pa[p] != pb[p];
                assert(a[p] != b[p]);
            }
        }
    }
}

/// Decides whether a character branches into two cases.
fn branchable(c: char) -> (r: bool)
    ensures
        r == is_branchable(c),
{
    let code = c as u32;
    let alphabetic = (code >= 97 && code <= 122) || (code >= 65 && code <= 90);
    alphabetic && code != 79 && code != 73 && code != 108
}

/// The byte of a character, as variants carry it.
fn char_byte(c: char) -> (r: u8)
    ensures
        r == byte_of(c),
{
    let code = c as u32;
    (code % 256) as u8
}

/// The lowercase byte of a character.
fn char_lower_byte(c: char) -> (r: u8)
    ensures
        r == lower_byte(c),
{
    let code = c as u32;
    if code >= 65 && code <= 90 {
        (code + 32) as u8
    } else {
        (code % 256) as u8
    }
}

/// The uppercase byte of a character.
fn char_upper_byte(c: char) -> (r: u8)
    ensures
        r == upper_byte(c),
{
    let code = c as u32;
    if code >= 97 && code <= 122 {
        (code - 32) as u8
    } else {
        (code % 256) as u8
    }
}

/// A copy of `v` with `b` appended.
fn appended(v: &Vec<u8>, b: u8) -> (r: Vec<u8>)
    ensures
        r@ == v@.push(b),
{
    let mut r: Vec<u8> = Vec::new();
    let mut k: usize = 0;
    while k < v.len()
        invariant
            k <= v@.len(),
            r@ == v@.take(k as int),
        decreases v@.len() - k,
    {
        r.push(v[k]);
        proof {
            assert(r@ =~= v@.take(k + 1));
        }
        k += 1;
    }
    proof {
        assert(v@.take(v@.len() as int) =~= v@);
    }
    r.push(b);
    r
}

/// Expands a pattern into its full set of case variants: at every
/// branchable character each variant so far splits into a lowercase and
/// an uppercase continuation; every other character passes through
/// unchanged.
pub fn generate_capital_variations(input: &str) -> (r: Vec<Vec<u8>>)
    ensures
        views(r@) == variants_of(input@),
{
    let n = input.unicode_len();
    let mut variations: Vec<Vec<u8>> = Vec::new();
    variations.push(Vec::new());
    proof {
        assert(views(variations@) =~~= variants_of(input@.take(0)));
    }
    let mut i: usize = 0;
    while i < n
        invariant
            i <= n,
            n == input@.len(),
            views(variations@) == variants_of(input@.take(i as int)),
        decreases n - i,
    {
        let c = input.get_char(i);
        let ghost prev_vs = views(variations@);
        let mut new_variations: Vec<Vec<u8>> = Vec::new();
        if branchable(c) {
            let lb = char_lower_byte(c);
            let ub = char_upper_byte(c);
            let mut j: usize = 0;
            while j < variations.len()
                invariant
                    j <= variations@.len(),
                    views(variations@) == prev_vs,
                    is_branchable(c),
                    lb == lower_byte(c),
                    ub == upper_byte(c),
                    views(new_variations@) == extend_all(prev_vs.take(j as int), c),
                decreases variations@.len() - j,
            {
                let lower = appended(&variations[j], lb);
                new_variations.push(lower);
                let upper = appended(&variations[j], ub);
                new_variations.push(upper);
                proof {
                    assert(prev_vs.take(j + 1).drop_last() =~= prev_vs.take(j as int));
                    assert(prev_vs.take(j + 1).last() == prev_vs[j as int]);
                    assert(views(new_variations@) =~~= extend_all(prev_vs.take(j + 1), c));
                }
                j += 1;
            }
            proof {
                assert(prev_vs.take(variations@.len() as int) =~= prev_vs);
            }
        } else {
            let b = char_byte(c);
            let mut j: usize = 0;
            while j < variations.len()
                invariant
                    j <= variations@.len(),
                    views(variations@) == prev_vs,
                    !is_branchable(c),
                    b == byte_of(c),
                    views(new_variations@) == extend_all(prev_vs.take(j as int), c),
                decreases variations@.len() - j,
            {
                let unchanged = appended(&variations[j], b);
                new_variations.push(unchanged);
                proof {
                    assert(prev_vs.take(j + 1).drop_last() =~= prev_vs.take(j as int));
                    assert(prev_vs.take(j + 1).last() == prev_vs[j as int]);
                    assert(views(new_variations@) =~~= extend_all(prev_vs.take(j + 1), c));
                }
                j += 1;
            }
            proof {
                assert(prev_vs.take(variations@.len() as int) =~= prev_vs);
            }
        }
        variations = new_variations;
        proof {
            assert(input@.take(i + 1).drop_last() =~= input@.take(i as int));
            assert(input@.take(i + 1).last() == input@[i as int]);
        }
        i += 1;
    }
    proof {
        assert(input@.take(n as int) =~= input@);
    }
    variations
}

/// The pattern's characters as one byte vector.
fn pattern_bytes(pattern: &str) -> (r: Vec<u8>)
    ensures
        r@ == bytes_of(pattern@),
{
    let n = pattern.unicode_len();
    let mut r: Vec<u8> = Vec::new();
    let mut i: usize = 0;
    while i < n
        invariant
            i <= n,
            n == pattern@.len(),
            r@ == bytes_of(pattern@).take(i as int),
        decreases n - i,
    {
        let c = pattern.get_char(i);
        r.push(char_byte(c));
        proof {
            assert(r@ =~= bytes_of(pattern@).take(i + 1));
        }
        i += 1;
    }
    proof {
        assert(bytes_of(pattern@).take(n as int) =~= bytes_of(pattern@));
    }
    r
}

/// The variant set of a pattern: with case-insensitivity the full case
/// expansion, without it the single variant that is the pattern's own
/// bytes.
pub fn expand(pattern: &str, case_insensitive: bool) -> (r: Vec<Vec<u8>>)
    ensures
        case_insensitive ==> views(r@) == variants_of(pattern@),
        !case_insensitive ==> views(r@) == seq![bytes_of(pattern@)],
{
    if case_insensitive {
        generate_capital_variations(pattern)
    } else {
        let mut r: Vec<Vec<u8>> = Vec::new();
        r.push(pattern_bytes(pattern));
        proof {
            assert(views(r@) =~= seq![bytes_of(pattern@)]);
        }
        r
    }
}

} // verus!
