//! Ranking the candidate answers of a slider puzzle. Every candidate is
//! scored by luma; the best few are scored again by colour and by the text
//! band of the picture; each candidate's ranks are added up and the
//! candidates are ordered by that sum.

use crate::captcha_v2_slider::{
    active_swaps, activeSwapsForIndexV2, applySliderSwapsV2, apply_swaps, is_permutation, pairs_in_range,
    SliderError,
};
use crate::slider_image::{seamScoreLumaV2, seamScoreRGBV2, seam_ok, seam_score, RgbImage};
use vstd::multiset::Multiset;
use vstd::prelude::*;

verus! {

broadcast use vstd::seq_lib::group_to_multiset_ensures;

/// A candidate answer: its number (from 1), the swaps it undoes, and its
/// scores and ranks.
#[derive(Debug, Clone)]
pub struct sliderGuessV2 {
    pub index: usize,
    pub swaps: Vec<usize>,
    pub score: i64,
    pub score_rgb: i64,
    pub score_luma: i64,
    pub consensus_rank: usize,
}

/// The arrangement a candidate's swaps give, or none when they do not
/// apply.
pub open spec fn mapping_of(g: int, s: Seq<usize>) -> Seq<usize> {
    match apply_swaps(g, s) {
        Ok(m) => m,
        Err(_) => Seq::empty(),
    }
}

/// When a puzzle's candidates can be scored: the picture can be scored with
/// the grid, and (beyond a single tile) every swap stays inside the grid.
pub open spec fn stage_ok(img: RgbImage, g: int, swaps: Seq<usize>) -> bool {
    &&& img.wf()
    &&& 1 <= g
    &&& g * g <= usize::MAX
    &&& img.width <= 65535 && img.height <= 65535
    &&& (g == 1 || (g <= img.width && g <= img.height) || (img.width == 0 && img.height == 0))
    &&& (g == 1 || forall|j: int| 0 <= j < swaps.len() ==> #[trigger] swaps[j] < g * g)
}

/// Score `a` with number `i` comes before score `b` with number `j`.
pub open spec fn key_lt(a: i64, i: usize, b: i64, j: usize) -> bool {
    a < b || (a == b && i < j)
}

/// How many of the first `n` guesses come before guess `k` by luma score,
/// then number.
pub open spec fn luma_before(gs: Seq<sliderGuessV2>, n: nat, k: int) -> nat
    decreases n,
{
    if n == 0 {
        0
    } else {
        luma_before(gs, (n - 1) as nat, k) + if key_lt(gs[n - 1].score_luma, gs[n - 1].index, gs[k].score_luma, gs[k].index) {
            1nat
        } else {
            0nat
        }
    }
}

/// Guess `k`'s place when all guesses are ordered by luma score, then number.
pub open spec fn luma_rank(gs: Seq<sliderGuessV2>, k: int) -> nat {
    luma_before(gs, gs.len(), k)
}

/// How many candidates are scored again: twelve at most.
pub open spec fn stage2_count(n: nat) -> nat {
    if n < 12 {
        n
    } else {
        12
    }
}

/// The numbers of the first `n` guesses whose luma place is within the
/// candidates scored again, in order.
pub open spec fn stage2_set(gs: Seq<sliderGuessV2>, n: nat) -> Seq<usize>
    decreases n,
{
    if n == 0 {
        Seq::empty()
    } else {
        let p = stage2_set(gs, (n - 1) as nat);
        if luma_rank(gs, n - 1) < stage2_count(gs.len()) {
            p.push(gs[n - 1].index)
        } else {
            p
        }
    }
}

/// What the first stage gives for candidate `k` (numbered `k + 1`): its
/// swaps, its luma score and, for the candidates scored again, its colour
/// score (0 for the others); no rank yet.
pub open spec fn stage_one_guess(img: RgbImage, g: int, swaps: Seq<usize>, gs: Seq<sliderGuessV2>, k: int) -> bool {
    let active = active_swaps(swaps, k + 1);
    let m = mapping_of(g, active);
    &&& gs[k].index == k + 1
    &&& gs[k].swaps@ == active
    &&& gs[k].score == 0
    &&& gs[k].consensus_rank == 0
    &&& gs[k].score_luma == seam_score(img, g, m, false)
    &&& gs[k].score_rgb == if luma_rank(gs, k) < stage2_count(gs.len()) {
        seam_score(img, g, m, true)
    } else {
        0
    }
}

/// Under `stage_ok`, each candidate's arrangement is a permutation of the
/// grid (beyond a single tile), so it can be scored.
proof fn lemma_candidate_scorable(img: RgbImage, g: int, swaps: Seq<usize>, idx: int)
    requires
        stage_ok(img, g, swaps),
        1 <= idx <= swaps.len() / 2,
    ensures
        active_swaps(swaps, idx).len() % 2 == 0,
        g != 1 ==> apply_swaps(g, active_swaps(swaps, idx)) is Ok,
{
    let a = active_swaps(swaps, idx);
    assert(a =~= swaps.take(idx * 2));
    assert(g * g >= 1) by (nonlinear_arith)
        requires
            g >= 1,
    ;
    if g != 1 {
        assert(pairs_in_range(a, g * g, (a.len() / 2) as int));
    }
}

/// The first stage of ranking: every candidate scored by luma, and the best
/// twelve by luma scored again by colour. Returns the candidates, in
/// number order, and the numbers of those scored again.
pub fn sliderStageOneV2(img: &RgbImage, grid_size: usize, swaps: &[usize]) -> (r: Result<
    (Vec<sliderGuessV2>, Vec<usize>),
    SliderError,
>)
    requires
        stage_ok(*img, grid_size as int, swaps@),
    ensures
        swaps@.len() / 2 == 0 ==> r matches Err(SliderError::NoCandidates),
        swaps@.len() / 2 > 0 ==> (r matches Ok(t) && t.0@.len() == swaps@.len() / 2 && (forall|k: int|
            0 <= k < t.0@.len() ==> #[trigger] stage_one_guess(*img, grid_size as int, swaps@, t.0@, k)) && t.1@
            == stage2_set(t.0@, t.0@.len())),
{
    let n = swaps.len() / 2;
    if n == 0 {
        return Err(SliderError::NoCandidates);
    }
    let ghost g = grid_size as int;
    let mut guesses: Vec<sliderGuessV2> = Vec::new();
    let mut idx: usize = 1;
    while idx <= n
        invariant
            stage_ok(*img, g, swaps@),
            g == grid_size as int,
            n == swaps@.len() / 2,
            1 <= idx <= n + 1,
            guesses@.len() == idx - 1,
            n <= usize::MAX / 2,
            forall|k: int|
                #![trigger guesses@[k]]
                0 <= k < guesses@.len() ==> {
                    let active = active_swaps(swaps@, k + 1);
                    &&& guesses@[k].index == k + 1
                    &&& guesses@[k].swaps@ == active
                    &&& guesses@[k].score == 0
                    &&& guesses@[k].score_rgb == 0
                    &&& guesses@[k].consensus_rank == 0
                    &&& guesses@[k].score_luma == seam_score(*img, g, mapping_of(g, active), false)
                },
        decreases n + 1 - idx,
    {
        let active = activeSwapsForIndexV2(swaps, idx);
        proof {
            lemma_candidate_scorable(*img, g, swaps@, idx as int);
        }
        let mapping = match applySliderSwapsV2(grid_size, active.as_slice()) {
            Ok(m) => m,
            Err(_) => Vec::new(),
        };
        assert(mapping@ == mapping_of(g, active@));
        let score_luma = seamScoreLumaV2(img, grid_size, mapping.as_slice());
        guesses.push(sliderGuessV2 { index: idx, swaps: active, score: 0, score_rgb: 0, score_luma, consensus_rank: 0 });
        idx = idx + 1;
    }
    let ghost g0 = guesses@;
    let cut: usize = if n < 12 { n } else { 12 };
    let mut stage2: Vec<usize> = Vec::new();
    let mut k: usize = 0;
    while k < n
        invariant
            stage_ok(*img, g, swaps@),
            g == grid_size as int,
            n == swaps@.len() / 2,
            n == g0.len(),
            cut as nat == stage2_count(n as nat),
            k <= n,
            guesses@.len() == n,
            forall|j: int|
                #![trigger guesses@[j]]
                0 <= j < n ==> {
                    let active = active_swaps(swaps@, j + 1);
                    &&& guesses@[j].index == g0[j].index
                    &&& guesses@[j].index == j + 1
                    &&& guesses@[j].swaps@ == active
                    &&& guesses@[j].score == 0
                    &&& guesses@[j].consensus_rank == 0
                    &&& guesses@[j].score_luma == g0[j].score_luma
                    &&& guesses@[j].score_luma == seam_score(*img, g, mapping_of(g, active), false)
                    &&& guesses@[j].score_rgb == if j < k && luma_rank(g0, j) < stage2_count(n as nat) {
                        seam_score(*img, g, mapping_of(g, active), true)
                    } else {
                        0
                    }
                },
            stage2@ == stage2_set(g0, k as nat),
        decreases n - k,
    {
        let rank = luma_place(&guesses, k);
        assert(rank as nat == luma_rank(g0, k as int)) by {
            lemma_luma_before_same(guesses@, g0, n as nat, k as int);
        }
        if rank < cut {
            proof {
                lemma_candidate_scorable(*img, g, swaps@, k + 1);
            }
            let mapping = match applySliderSwapsV2(grid_size, guesses[k].swaps.as_slice()) {
                Ok(m) => m,
                Err(_) => Vec::new(),
            };
            assert(mapping@ == mapping_of(g, active_swaps(swaps@, k + 1)));
            let score_rgb = seamScoreRGBV2(img, grid_size, mapping.as_slice());
            guesses[k].score_rgb = score_rgb;
            stage2.push(guesses[k].index);
        }
        k = k + 1;
    }
    proof {
        assert forall|j: int| 0 <= j < n implies luma_rank(guesses@, j) == luma_rank(g0, j) by {
            lemma_luma_before_same(guesses@, g0, n as nat, j);
        }
        assert forall|k: int| 0 <= k < n implies #[trigger] stage_one_guess(*img, g, swaps@, guesses@, k) by {
            lemma_luma_before_same(guesses@, g0, n as nat, k);
        }
        lemma_stage2_same(guesses@, g0, n as nat);
    }
    Ok((guesses, stage2))
}

/// Luma places depend only on the luma scores and numbers.
proof fn lemma_luma_before_same(a: Seq<sliderGuessV2>, b: Seq<sliderGuessV2>, n: nat, k: int)
    requires
        a.len() == b.len(),
        n <= a.len(),
        0 <= k < a.len(),
        forall|j: int| #![trigger a[j]] 0 <= j < a.len() ==> a[j].index == b[j].index && a[j].score_luma == b[j].score_luma,
    ensures
        luma_before(a, n, k) == luma_before(b, n, k),
        n == a.len() ==> luma_rank(a, k) == luma_rank(b, k),
    decreases n,
{
    if n > 0 {
        lemma_luma_before_same(a, b, (n - 1) as nat, k);
        assert(a[n - 1].index == b[n - 1].index);
        assert(a[k].index == b[k].index);
    }
}

/// The stage-two set depends only on the luma scores and numbers.
proof fn lemma_stage2_same(a: Seq<sliderGuessV2>, b: Seq<sliderGuessV2>, n: nat)
    requires
        a.len() == b.len(),
        n <= a.len(),
        forall|j: int| #![trigger a[j]] 0 <= j < a.len() ==> a[j].index == b[j].index && a[j].score_luma == b[j].score_luma,
    ensures
        stage2_set(a, n) == stage2_set(b, n),
    decreases n,
{
    if n > 0 {
        lemma_stage2_same(a, b, (n - 1) as nat);
        lemma_luma_before_same(a, b, a.len(), n - 1);
        assert(a[n - 1].index == b[n - 1].index);
    }
}

/// Guess `k`'s place by luma score, then number.
fn luma_place(gs: &Vec<sliderGuessV2>, k: usize) -> (r: usize)
    requires
        k < gs@.len(),
    ensures
        r as nat == luma_rank(gs@, k as int),
{
    let mut c: usize = 0;
    let mut j: usize = 0;
    while j < gs.len()
        invariant
            k < gs@.len(),
            j <= gs@.len(),
            c as nat == luma_before(gs@, j as nat, k as int),
            c <= j,
        decreases gs@.len() - j,
    {
        let a = gs[j].score_luma;
        let b = gs[k].score_luma;
        if a < b || (a == b && gs[j].index < gs[k].index) {
            c = c + 1;
        }
        j = j + 1;
    }
    c
}


/// How many of the first `n` guesses that were scored again come before
/// guess `k` by colour score, then number.
pub open spec fn rgb_before(gs: Seq<sliderGuessV2>, st: Seq<usize>, n: nat, k: int) -> nat
    decreases n,
{
    if n == 0 {
        0
    } else {
        rgb_before(gs, st, (n - 1) as nat, k) + if st.contains(gs[n - 1].index) && key_lt(
            gs[n - 1].score_rgb,
            gs[n - 1].index,
            gs[k].score_rgb,
            gs[k].index,
        ) {
            1nat
        } else {
            0nat
        }
    }
}

/// Guess `k`'s place among the guesses scored again, by colour score, then
/// number.
pub open spec fn rgb_rank(gs: Seq<sliderGuessV2>, st: Seq<usize>, k: int) -> nat {
    rgb_before(gs, st, gs.len(), k)
}

/// The last position of `x` in `s`.
pub open spec fn last_pos(s: Seq<usize>, x: usize) -> Option<nat>
    decreases s.len(),
{
    if s.len() == 0 {
        None
    } else if s.last() == x {
        Some((s.len() - 1) as nat)
    } else {
        last_pos(s.drop_last(), x)
    }
}

/// A candidate's place in the text ordering: its last position there, or 0
/// when it is absent.
pub open spec fn text_rank(text_order: Seq<usize>, x: usize) -> nat {
    match last_pos(text_order, x) {
        Some(p) => p,
        None => 0,
    }
}

/// The consensus rank of guess `k`: its luma place, plus (for a guess scored
/// again) its colour and text places, or (for the others) the number of
/// guesses.
pub open spec fn consensus(gs: Seq<sliderGuessV2>, st: Seq<usize>, text_order: Seq<usize>, k: int) -> nat {
    luma_rank(gs, k) + if st.contains(gs[k].index) {
        rgb_rank(gs, st, k) + text_rank(text_order, gs[k].index)
    } else {
        gs.len()
    }
}

/// Guess `k` with its consensus rank, which is also its score.
pub open spec fn ranked_guess(gs: Seq<sliderGuessV2>, st: Seq<usize>, text_order: Seq<usize>, k: int) -> sliderGuessV2 {
    let c = consensus(gs, st, text_order, k);
    sliderGuessV2 {
        index: gs[k].index,
        swaps: gs[k].swaps,
        score: c as i64,
        score_rgb: gs[k].score_rgb,
        score_luma: gs[k].score_luma,
        consensus_rank: c as usize,
    }
}

/// The guesses with their consensus ranks.
pub open spec fn ranked_guesses(gs: Seq<sliderGuessV2>, st: Seq<usize>, text_order: Seq<usize>) -> Seq<sliderGuessV2> {
    Seq::new(gs.len(), |k: int| ranked_guess(gs, st, text_order, k))
}

/// Every one of the first `m` guesses whose luma place is within the
/// re-scored count has its number in the stage-two set.
proof fn lemma_stage2_holds_best(gs: Seq<sliderGuessV2>, m: nat, k: int)
    requires
        0 <= k < m <= gs.len(),
        luma_rank(gs, k) < stage2_count(gs.len()),
    ensures
        stage2_set(gs, m).contains(gs[k].index),
    decreases m,
{
    let p = stage2_set(gs, (m - 1) as nat);
    if k < m - 1 {
        lemma_stage2_holds_best(gs, (m - 1) as nat, k);
        let j = choose|j: int| 0 <= j < p.len() && p[j] == gs[k].index;
        if luma_rank(gs, m - 1) < stage2_count(gs.len()) {
            assert(p.push(gs[m - 1].index)[j] == gs[k].index);
        }
    } else {
        assert(p.push(gs[k].index)[p.len() as int] == gs[k].index);
    }
}

/// A candidate left out of the re-scoring (the stage-two set of the twelve
/// best by luma) gets as consensus rank its luma place plus the number of
/// candidates, so with twelve or more candidates it ranks no better than the
/// number of candidates plus twelve; among such candidates the better luma
/// place is ordered first; and, with twelve or more candidates, a re-scored
/// candidate among the twelve best by luma is ordered before every left-out
/// one whenever its colour and text places together stay below the number of
/// candidates.
pub proof fn lemma_unscored_candidates_last(gs: Seq<sliderGuessV2>, text_order: Seq<usize>, i: int, j: int)
    requires
        0 <= i < gs.len(),
        0 <= j < gs.len(),
        !stage2_set(gs, gs.len()).contains(gs[j].index),
    ensures
        consensus(gs, stage2_set(gs, gs.len()), text_order, j) == luma_rank(gs, j) + gs.len(),
        gs.len() >= 12 ==> consensus(gs, stage2_set(gs, gs.len()), text_order, j) >= gs.len() + 12,
        !stage2_set(gs, gs.len()).contains(gs[i].index) && luma_rank(gs, i) < luma_rank(gs, j) ==> consensus(
            gs,
            stage2_set(gs, gs.len()),
            text_order,
            i,
        ) < consensus(gs, stage2_set(gs, gs.len()), text_order, j),
        gs.len() >= 12 && stage2_set(gs, gs.len()).contains(gs[i].index) && luma_rank(gs, i) < 12 && rgb_rank(
            gs,
            stage2_set(gs, gs.len()),
            i,
        ) + text_rank(text_order, gs[i].index) < gs.len() ==> consensus(gs, stage2_set(gs, gs.len()), text_order, i)
            < consensus(gs, stage2_set(gs, gs.len()), text_order, j),
{
    if luma_rank(gs, j) < stage2_count(gs.len()) {
        lemma_stage2_holds_best(gs, gs.len(), j);
    }
}

/// The final order: consensus rank, then luma score, then number.
pub open spec fn final_lt(a: sliderGuessV2, b: sliderGuessV2) -> bool {
    a.consensus_rank < b.consensus_rank || (a.consensus_rank == b.consensus_rank && key_lt(
        a.score_luma,
        a.index,
        b.score_luma,
        b.index,
    ))
}

/// Guess `k`'s place among those scored again, by colour score, then number.
fn rgb_place(gs: &Vec<sliderGuessV2>, st: &[usize], k: usize) -> (r: usize)
    requires
        k < gs@.len(),
    ensures
        r as nat == rgb_rank(gs@, st@, k as int),
{
    let mut c: usize = 0;
    let mut j: usize = 0;
    while j < gs.len()
        invariant
            k < gs@.len(),
            j <= gs@.len(),
            c as nat == rgb_before(gs@, st@, j as nat, k as int),
            c <= j,
        decreases gs@.len() - j,
    {
        let a = gs[j].score_rgb;
        let b = gs[k].score_rgb;
        if contains_index(st, gs[j].index) && (a < b || (a == b && gs[j].index < gs[k].index)) {
            c = c + 1;
        }
        j = j + 1;
    }
    c
}

/// Whether `x` occurs in `s`.
fn contains_index(s: &[usize], x: usize) -> (r: bool)
    ensures
        r == s@.contains(x),
{
    let mut i: usize = 0;
    while i < s.len()
        invariant
            i <= s@.len(),
            forall|j: int| 0 <= j < i ==> s@[j] != x,
        decreases s@.len() - i,
    {
        if s[i] == x {
            assert(s@[i as int] == x);
            return true;
        }
        i = i + 1;
    }
    false
}

/// The text place of candidate `x`.
fn text_place(text_order: &[usize], x: usize) -> (r: usize)
    ensures
        r as nat == text_rank(text_order@, x),
        text_order@.len() > 0 ==> r < text_order@.len(),
        text_order@.len() == 0 ==> r == 0,
{
    let mut i: usize = text_order.len();
    assert(text_order@.take(i as int) =~= text_order@);
    while i > 0
        invariant
            i <= text_order@.len(),
            last_pos(text_order@, x) == last_pos(text_order@.take(i as int), x),
        decreases i,
    {
        let ghost t = text_order@.take(i as int);
        assert(t.drop_last() =~= text_order@.take(i - 1));
        if text_order[i - 1] == x {
            return i - 1;
        }
        i = i - 1;
    }
    assert(text_order@.take(0) =~= Seq::<usize>::empty());
    0
}

/// The consensus rank of guess `k`.
fn consensus_of(gs: &Vec<sliderGuessV2>, st: &[usize], text_order: &[usize], k: usize) -> (r: usize)
    requires
        k < gs@.len(),
        text_order@.len() <= gs@.len(),
        3 * gs@.len() <= usize::MAX,
    ensures
        r as nat == consensus(gs@, st@, text_order@, k as int),
{
    let l = luma_place(gs, k);
    proof {
        lemma_before_bounded(gs@, gs@.len(), k as int, st@);
    }
    if contains_index(st, gs[k].index) {
        let c = rgb_place(gs, st, k);
        let t = text_place(text_order, gs[k].index);
        l + c + t
    } else {
        l + gs.len()
    }
}

/// Places are below the number of guesses counted.
proof fn lemma_before_bounded(gs: Seq<sliderGuessV2>, n: nat, k: int, st: Seq<usize>)
    requires
        0 <= k < gs.len(),
        n <= gs.len(),
    ensures
        luma_before(gs, n, k) <= n,
        rgb_before(gs, st, n, k) <= n,
    decreases n,
{
    if n > 0 {
        lemma_before_bounded(gs, (n - 1) as nat, k, st);
    }
}

/// The second stage of ranking: each candidate's consensus rank, from its
/// luma place, its colour place and its place in `text_order` (the
/// candidates scored again, ordered by their text score), then the
/// candidates ordered by consensus rank, luma score and number. The result
/// holds the same candidates, each with its consensus rank (also its
/// score), in strictly increasing final order.
pub fn sliderFinalRankV2(guesses: Vec<sliderGuessV2>, stage2: &[usize], text_order: &[usize]) -> (r: Vec<
    sliderGuessV2,
>)
    requires
        forall|k: int| #![trigger guesses@[k]] 0 <= k < guesses@.len() ==> guesses@[k].index == k + 1,
        text_order@.len() <= guesses@.len(),
        3 * guesses@.len() <= usize::MAX,
    ensures
        r@.len() == guesses@.len(),
        r@.to_multiset() == ranked_guesses(guesses@, stage2@, text_order@).to_multiset(),
        forall|i: int, j: int| 0 <= i < j < r@.len() ==> final_lt(#[trigger] r@[i], #[trigger] r@[j]),
{
    let n = guesses.len();
    let ghost g0 = guesses@;
    let mut cons: Vec<usize> = Vec::new();
    let mut k: usize = 0;
    while k < n
        invariant
            n == g0.len(),
            guesses@ == g0,
            k <= n,
            text_order@.len() <= n,
            3 * n <= usize::MAX,
            cons@.len() == k,
            forall|j: int| 0 <= j < k ==> #[trigger] cons@[j] as nat == consensus(g0, stage2@, text_order@, j),
        decreases n - k,
    {
        let c = consensus_of(&guesses, stage2, text_order, k);
        cons.push(c);
        k = k + 1;
    }
    let mut ranked = guesses;
    let mut k: usize = 0;
    while k < n
        invariant
            n == g0.len(),
            ranked@.len() == n,
            k <= n,
            cons@.len() == n,
            forall|j: int| 0 <= j < n ==> #[trigger] cons@[j] as nat == consensus(g0, stage2@, text_order@, j),
            forall|j: int| 0 <= j < k ==> #[trigger] ranked@[j] == ranked_guess(g0, stage2@, text_order@, j),
            forall|j: int| k <= j < n ==> #[trigger] ranked@[j] == g0[j],
        decreases n - k,
    {
        let c = cons[k];
        ranked[k].consensus_rank = c;
        ranked[k].score = c as i64;
        assert(ranked@[k as int] == ranked_guess(g0, stage2@, text_order@, k as int));
        k = k + 1;
    }
    assert(ranked@ =~= ranked_guesses(g0, stage2@, text_order@));
    assert forall|i: int, j: int| 0 <= i < j < ranked@.len() implies (#[trigger] ranked@[i]).index != (
    #[trigger] ranked@[j]).index by {
        assert(ranked@[i].index == g0[i].index);
        assert(ranked@[j].index == g0[j].index);
    }
    sort_final(ranked)
}

/// Orders guesses with distinct numbers by the final order (selection sort).
fn sort_final(v: Vec<sliderGuessV2>) -> (r: Vec<sliderGuessV2>)
    requires
        forall|i: int, j: int| 0 <= i < j < v@.len() ==> (#[trigger] v@[i]).index != (#[trigger] v@[j]).index,
    ensures
        r@.len() == v@.len(),
        r@.to_multiset() == v@.to_multiset(),
        forall|i: int, j: int| 0 <= i < j < r@.len() ==> final_lt(#[trigger] r@[i], #[trigger] r@[j]),
{
    let ghost all = v@;
    let mut rest = v;
    let mut out: Vec<sliderGuessV2> = Vec::new();
    while rest.len() > 0
        invariant
            out@.len() + rest@.len() == all.len(),
            out@.to_multiset().add(rest@.to_multiset()) == all.to_multiset(),
            forall|i: int, j: int| 0 <= i < j < out@.len() ==> final_lt(#[trigger] out@[i], #[trigger] out@[j]),
            forall|i: int, j: int| 0 <= i < out@.len() && 0 <= j < rest@.len() ==> final_lt(#[trigger] out@[i], #[trigger] rest@[j]),
            forall|i: int, j: int| 0 <= i < j < rest@.len() ==> (#[trigger] rest@[i]).index != (#[trigger] rest@[j]).index,
        decreases rest@.len(),
    {
        let mut best: usize = 0;
        let mut j: usize = 1;
        while j < rest.len()
            invariant
                0 < rest@.len(),
                best < rest@.len(),
                1 <= j <= rest@.len(),
                best < j,
                forall|i: int, i2: int| 0 <= i < i2 < rest@.len() ==> (#[trigger] rest@[i]).index != (#[trigger] rest@[i2]).index,
                forall|i: int| 0 <= i < j && i != best ==> final_lt(rest@[best as int], #[trigger] rest@[i]),
            decreases rest@.len() - j,
        {
            let a = &rest[j];
            let b = &rest[best];
            if a.consensus_rank < b.consensus_rank || (a.consensus_rank == b.consensus_rank && (a.score_luma
                < b.score_luma || (a.score_luma == b.score_luma && a.index < b.index))) {
                proof {
                    assert forall|i: int| 0 <= i < j + 1 && i != j implies final_lt(
                        rest@[j as int],
                        #[trigger] rest@[i],
                    ) by {
                        if i != best {
                            assert(final_lt(rest@[best as int], rest@[i]));
                        }
                    }
                }
                best = j;
            } else {
                proof {
                    assert(rest@[j as int].index != rest@[best as int].index);
                    assert(final_lt(rest@[best as int], rest@[j as int]));
                }
            }
            j = j + 1;
        }
        let ghost old_rest = rest@;
        let ghost old_out = out@;
        let x = rest.remove(best);
        proof {
            assert(x == old_rest[best as int]);
            assert(rest@ =~= old_rest.remove(best as int));
            assert forall|i: int, j2: int| 0 <= i < out@.len() + 1 && 0 <= j2 < rest@.len() implies final_lt(
                #[trigger] old_out.push(x)[i],
                #[trigger] rest@[j2],
            ) by {
                let oj = if j2 < best { j2 } else { j2 + 1 };
                assert(rest@[j2] == old_rest[oj]);
                if i < old_out.len() {
                    assert(old_out.push(x)[i] == old_out[i]);
                } else {
                    assert(oj != best);
                }
            }
            assert forall|i: int, i2: int| 0 <= i < i2 < rest@.len() implies (#[trigger] rest@[i]).index != (
            #[trigger] rest@[i2]).index by {
                let oi = if i < best { i } else { i + 1 };
                let oi2 = if i2 < best { i2 } else { i2 + 1 };
                assert(rest@[i] == old_rest[oi]);
                assert(rest@[i2] == old_rest[oi2]);
            }
        }
        out.push(x);
        proof {
            assert(out@ =~= old_out.push(x));
            assert forall|i: int, j2: int| 0 <= i < j2 < out@.len() implies final_lt(#[trigger] out@[i], #[trigger] out@[j2]) by {
                if j2 == old_out.len() {
                    assert(final_lt(old_out[i], old_rest[best as int]));
                } else {
                    assert(final_lt(old_out[i], old_out[j2]));
                }
            }
            assert(out@.to_multiset().add(rest@.to_multiset()) =~= all.to_multiset());
        }
    }
    proof {
        assert(rest@.to_multiset() =~= Multiset::<sliderGuessV2>::empty());
        assert(out@.to_multiset() =~= all.to_multiset());
    }
    out
}


/// The candidate a cursor track aims at, clamped to `1..=count`, and the x
/// position it ends near: from 734 for the first candidate to 937 for the
/// last, in equal steps rounded toward zero.
pub open spec fn cursor_target(index: int, count: int) -> (int, int) {
    let idx = if index < 1 { 1 } else if index > count { count } else { index };
    let denom = if count < 2 { 1 } else { count - 1 };
    (idx, 734 + (937 - 734) * (idx - 1) / denom)
}

/// Where the cursor track of a slider answer ends: nothing when there are
/// no candidates, else the clamped candidate and the x position of its
/// target.
pub fn sliderCursorTargetV2(candidate_index: usize, candidate_count: usize) -> (r: Option<(usize, i32)>)
    requires
        candidate_count <= 10_000_000,
    ensures
        candidate_count == 0 ==> r is None,
        candidate_count > 0 ==> (r matches Some(t) && (t.0 as int, t.1 as int) == cursor_target(
            candidate_index as int,
            candidate_count as int,
        )),
        r matches Some(t) ==> 1 <= t.0 <= candidate_count && 734 <= t.1 <= 937,
{
    if candidate_count == 0 {
        return None;
    }
    let idx = if candidate_index < 1 {
        1
    } else if candidate_index > candidate_count {
        candidate_count
    } else {
        candidate_index
    };
    let denom = if candidate_count < 2 { 1 } else { candidate_count - 1 };
    assert(203 * (idx - 1) <= 203 * 10_000_000) by (nonlinear_arith)
        requires
            1 <= idx <= 10_000_000,
    ;
    assert(0 <= 203 * (idx - 1) / (denom as int) <= 203) by (nonlinear_arith)
        requires
            1 <= idx,
            idx - 1 <= denom,
            denom >= 1,
    ;
    let base_target_x: i32 = 734 + (937 - 734) * ((idx - 1) as i32) / (denom as i32);
    Some((idx, base_target_x))
}

} // verus!
