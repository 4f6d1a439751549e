//! Colour-stage logic: the named channel transpositions, permutation of the
//! interleaved output byte triples, and selection of a colour-mapping
//! strategy by (case-insensitive) name.

use vstd::prelude::*;

verus! {

/// Identity on channel positions.
pub fn id(i: usize) -> (r: usize)
    ensures
        r == i,
{
    i
}

/// Swap the red and green channel positions; other positions are fixed.
pub fn rg(i: usize) -> (r: usize)
    ensures
        r == spec_rg(i as int),
{
    match i {
        0 => 1,
        1 => 0,
        _ => i,
    }
}

/// Swap the red and blue channel positions; other positions are fixed.
pub fn rb(i: usize) -> (r: usize)
    ensures
        r == spec_rb(i as int),
{
    match i {
        0 => 2,
        2 => 0,
        _ => i,
    }
}

/// Swap the green and blue channel positions; other positions are fixed.
pub fn gb(i: usize) -> (r: usize)
    ensures
        r == spec_gb(i as int),
{
    match i {
        1 => 2,
        2 => 1,
        _ => i,
    }
}

pub open spec fn spec_rg(i: int) -> int {
    if i == 0 {
        1
    } else if i == 1 {
        0
    } else {
        i
    }
}

pub open spec fn spec_rb(i: int) -> int {
    if i == 0 {
        2
    } else if i == 2 {
        0
    } else {
        i
    }
}

pub open spec fn spec_gb(i: int) -> int {
    if i == 1 {
        2
    } else if i == 2 {
        1
    } else {
        i
    }
}

/// A named transposition of the three colour-channel positions.
#[derive(Clone, Copy, Debug, PartialEq, Eq, Structural)]
pub enum Transposition {
    Identity,
    SwapRG,
    SwapRB,
    SwapGB,
}

pub open spec fn spec_apply(t: Transposition, i: int) -> int {
    match t {
        Transposition::Identity => i,
        Transposition::SwapRG => spec_rg(i),
        Transposition::SwapRB => spec_rb(i),
        Transposition::SwapGB => spec_gb(i),
    }
}

impl Transposition {
    /// Apply this transposition to a channel position.
    pub fn apply(self, i: usize) -> (r: usize)
        ensures
            r == spec_apply(self, i as int),
    {
        match self {
            Transposition::Identity => id(i),
            Transposition::SwapRG => rg(i),
            Transposition::SwapRB => rb(i),
            Transposition::SwapGB => gb(i),
        }
    }
}

/// Look a transposition up by its command-line name; every unknown name
/// means the identity.
pub fn str_to_perm(name: &str) -> (r: Transposition)
    ensures
        r == Transposition::SwapRG <==> name@ == "RG"@,
        r == Transposition::SwapRB <==> name@ == "RB"@,
        r == Transposition::SwapGB <==> name@ == "GB"@,
        r == Transposition::Identity <==> name@ != "RG"@ && name@ != "RB"@ && name@ != "GB"@,
{
    proof {
        reveal_strlit("RG");
        reveal_strlit("RB");
        reveal_strlit("GB");
        assert("RG"@[0] == 'R' && "RG"@[1] == 'G');
        assert("RB"@[0] == 'R' && "RB"@[1] == 'B');
        assert("GB"@[0] == 'G' && "GB"@[1] == 'B');
    }
    if str_eq(name, "RG") {
        Transposition::SwapRG
    } else if str_eq(name, "RB") {
        Transposition::SwapRB
    } else if str_eq(name, "GB") {
        Transposition::SwapGB
    } else {
        Transposition::Identity
    }
}

/// Relies on str's PartialEq: two string slices compare equal exactly when
/// their character sequences are equal.
#[verifier::external_body]
fn str_eq(a: &str, b: &str) -> (r: bool)
    ensures
        r <==> a@ == b@,
{
    a == b
}

/// The composition of a sequence of transpositions, applied left to right.
pub open spec fn apply_perms(ps: Seq<Transposition>, i: int) -> int
    decreases ps.len(),
{
    if ps.len() == 0 {
        i
    } else {
        apply_perms(ps.subrange(1, ps.len() as int), spec_apply(ps[0], i))
    }
}

/// Apply a sequence of transpositions, in order, to a channel position.
pub fn apply_all(ps: &Vec<Transposition>, i: usize) -> (r: usize)
    requires
        i < 3,
    ensures
        r == apply_perms(ps@, i as int),
        r < 3,
{
    let mut target: usize = i;
    let mut k: usize = 0;
    proof {
        lemma_apply_perms_in_range(ps@, i as int);
        assert(ps@.subrange(0, ps@.len() as int) =~= ps@);
    }
    while k < ps.len()
        invariant
            k <= ps.len(),
            0 <= target < 3,
            apply_perms(ps@.subrange(k as int, ps@.len() as int), target as int) == apply_perms(
                ps@,
                i as int,
            ),
        decreases ps.len() - k,
    {
        proof {
            let rest = ps@.subrange(k as int, ps@.len() as int);
            assert(rest.subrange(1, rest.len() as int) =~= ps@.subrange(
                k + 1,
                ps@.len() as int,
            ));
        }
        target = ps[k].apply(target);
        k = k + 1;
    }
    proof {
        assert(ps@.subrange(ps@.len() as int, ps@.len() as int) =~= Seq::<
            Transposition,
        >::empty());
        lemma_apply_perms_in_range(ps@, i as int);
    }
    target
}

/// A composed permutation keeps a channel position among the three channels.
pub proof fn lemma_apply_perms_in_range(ps: Seq<Transposition>, i: int)
    requires
        0 <= i < 3,
    ensures
        0 <= apply_perms(ps, i) < 3,
    decreases ps.len(),
{
    if ps.len() > 0 {
        lemma_apply_perms_in_range(ps.subrange(1, ps.len() as int), spec_apply(ps[0], i));
    }
}

/// A composed permutation sends distinct channel positions to distinct ones.
pub proof fn lemma_apply_perms_injective(ps: Seq<Transposition>, i1: int, i2: int)
    requires
        0 <= i1 < 3,
        0 <= i2 < 3,
        i1 != i2,
    ensures
        apply_perms(ps, i1) != apply_perms(ps, i2),
    decreases ps.len(),
{
    if ps.len() > 0 {
        lemma_apply_perms_injective(
            ps.subrange(1, ps.len() as int),
            spec_apply(ps[0], i1),
            spec_apply(ps[0], i2),
        );
    }
}

/// The flat position of channel `j` within byte triple `p` of the
/// interleaved output array.
pub open spec fn triple_pos(p: int, j: int) -> int {
    3 * p + j
}

/// Within each byte triple, move the value at every position to the position
/// that the composed permutation assigns to it; a trailing fragment shorter
/// than a triple is ruled out by the interleaved three-channel layout.
pub fn permute_channels(pixel_data: &mut Vec<u8>, perms: &Vec<Transposition>)
    requires
        old(pixel_data).len() % 3 == 0,
    ensures
        final(pixel_data).len() == old(pixel_data).len(),
        forall|p: int, j: int|
            0 <= p < old(pixel_data).len() / 3 && 0 <= j < 3
                ==> final(pixel_data)@[triple_pos(p, apply_perms(perms@, j))] == old(
                pixel_data,
            )@[#[trigger] triple_pos(p, j)],
{
    let n = pixel_data.len();
    let mut orig: Vec<u8> = Vec::new();
    let mut i: usize = 0;
    while i < n
        invariant
            i <= n,
            pixel_data@ == old(pixel_data)@,
            n == pixel_data.len(),
            orig.len() == i,
            forall|k: int| 0 <= k < i ==> orig@[k] == pixel_data@[k],
        decreases n - i,
    {
        let b = pixel_data[i];
        orig.push(b);
        i = i + 1;
    }
    proof {
        assert(orig@ =~= old(pixel_data)@);
    }
    let triples = n / 3;
    let mut p: usize = 0;
    while p < triples
        invariant
            p <= triples,
            triples == n / 3,
            n % 3 == 0,
            pixel_data.len() == n,
            orig@ == old(pixel_data)@,
            orig.len() == n,
            forall|q: int, j: int|
                0 <= q < p && 0 <= j < 3 ==> pixel_data@[triple_pos(q, apply_perms(perms@, j))]
                    == orig@[#[trigger] triple_pos(q, j)],
        decreases triples - p,
    {
        let mut j: usize = 0;
        while j < 3
            invariant
                j <= 3,
                p < triples,
                triples == n / 3,
                n % 3 == 0,
                pixel_data.len() == n,
                orig@ == old(pixel_data)@,
                orig.len() == n,
                forall|q: int, jj: int|
                    0 <= q < p && 0 <= jj < 3 ==> pixel_data@[triple_pos(q, apply_perms(perms@, jj))]
                        == orig@[#[trigger] triple_pos(q, jj)],
                forall|jj: int|
                    0 <= jj < j ==> pixel_data@[triple_pos(p as int, apply_perms(perms@, jj))]
                        == orig@[#[trigger] triple_pos(p as int, jj)],
            decreases 3 - j,
        {
            let target = apply_all(perms, j);
            let value = orig[3 * p + j];
            pixel_data[3 * p + target] = value;
            proof {
                assert forall|jj: int| 0 <= jj < j implies apply_perms(perms@, jj)
                    != apply_perms(perms@, j as int) by {
                    lemma_apply_perms_injective(perms@, jj, j as int);
                }
                assert forall|jj: int| 0 <= jj < 3 implies 0 <= #[trigger] apply_perms(perms@, jj)
                    < 3 by {
                    lemma_apply_perms_in_range(perms@, jj);
                }
            }
            j = j + 1;
        }
        p = p + 1;
    }
}

/// Law: applying the same transposition twice restores every position.
pub proof fn lemma_transposition_involution(t: Transposition, i: int)
    ensures
        spec_apply(t, spec_apply(t, i)) == i,
{
}

/// A one-element permutation list acts as its single transposition.
pub proof fn lemma_apply_perms_single(t: Transposition, i: int)
    ensures
        apply_perms(seq![t], i) == spec_apply(t, i),
{
    reveal_with_fuel(apply_perms, 2);
    assert(seq![t].subrange(1, 1) =~= Seq::<Transposition>::empty());
}

/// Law: the permutation list made of the same transposition twice composes
/// to the identity on channel positions.
pub proof fn lemma_twice_identity(t: Transposition, i: int)
    ensures
        apply_perms(seq![t, t], i) == i,
{
    let ps = seq![t, t];
    assert(ps.subrange(1, 2) =~= seq![t]);
    lemma_apply_perms_single(t, spec_apply(t, i));
    lemma_transposition_involution(t, i);
}

/// Law: a permutation pass whose composed permutation fixes every channel
/// position leaves the byte array unchanged.
pub proof fn lemma_identity_permutation_unchanged(
    before: Seq<u8>,
    after: Seq<u8>,
    ps: Seq<Transposition>,
)
    requires
        before.len() % 3 == 0,
        after.len() == before.len(),
        forall|p: int, j: int|
            0 <= p < before.len() / 3 && 0 <= j < 3 ==> after[triple_pos(p, apply_perms(ps, j))]
                == before[#[trigger] triple_pos(p, j)],
        forall|i: int| 0 <= i < 3 ==> apply_perms(ps, i) == i,
    ensures
        after == before,
{
    assert forall|k: int| 0 <= k < before.len() implies after[k] == before[k] by {
        let p = k / 3;
        let j = k % 3;
        assert(k == triple_pos(p, j));
        assert(after[triple_pos(p, apply_perms(ps, j))] == before[triple_pos(p, j)]);
    }
    assert(after =~= before);
}

/// Colour-mapping strategies: the arc-tangent mapping, and the boosted
/// linear mapping capped at full brightness.
#[derive(Clone, Copy, Debug, PartialEq, Eq, Structural)]
pub enum ColourStrategy {
    AtanScaled,
    LinearCapped,
}

/// What str::to_lowercase returns: a function of the characters alone.
pub uninterp spec fn lower_of(s: Seq<char>) -> Seq<char>;

/// Relies on str::to_lowercase: the Unicode lowercase mapping of the
/// characters, depending on the characters alone.
#[verifier::external_body]
fn lowercase(s: &str) -> (r: String)
    ensures
        r@ == lower_of(s@),
{
    s.to_lowercase()
}

/// Select a colour-mapping strategy by name, ignoring case; every name other
/// than the linear one (the empty or an unrecognized name included) selects
/// the arc-tangent default.
pub fn colour_function(name: &str) -> (r: ColourStrategy)
    ensures
        r == ColourStrategy::LinearCapped <==> lower_of(name@) == "linear_capped"@,
        r == ColourStrategy::AtanScaled <==> lower_of(name@) != "linear_capped"@,
{
    let lowered = lowercase(name);
    let target = "linear_capped".to_owned();
    if lowered == target {
        ColourStrategy::LinearCapped
    } else {
        ColourStrategy::AtanScaled
    }
}

} // verus!
