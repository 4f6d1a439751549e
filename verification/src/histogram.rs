//! The histogram buffer: three unsigned counters per pixel, laid out as
//! interleaved triples. Escaped trajectories are committed here under the
//! per-channel iteration thresholds, and the channel maxima are computed
//! here for the colour-normalization stage.

use vstd::prelude::*;

use crate::colour::triple_pos;

verus! {

/// How often the recorded trajectory visits pixel `pixel`.
pub open spec fn visits(tr: Seq<usize>, pixel: int) -> nat
    decreases tr.len(),
{
    if tr.len() == 0 {
        0
    } else {
        visits(tr.drop_last(), pixel) + (if tr.last() == pixel {
            1nat
        } else {
            0nat
        })
    }
}

/// One more trajectory step adds one visit to the pixel it lands on.
proof fn lemma_visits_take_step(tr: Seq<usize>, t: int, pixel: int)
    requires
        0 <= t < tr.len(),
    ensures
        visits(tr.take(t + 1), pixel) == visits(tr.take(t), pixel) + (if tr[t] == pixel {
            1nat
        } else {
            0nat
        }),
{
    assert(tr.take(t + 1).drop_last() =~= tr.take(t));
}

/// A prefix of a trajectory never visits a pixel more often than the whole.
proof fn lemma_visits_take_le(tr: Seq<usize>, t: int, pixel: int)
    requires
        0 <= t <= tr.len(),
    ensures
        visits(tr.take(t), pixel) <= visits(tr, pixel),
    decreases tr.len() - t,
{
    if t == tr.len() {
        assert(tr.take(t) =~= tr);
    } else {
        lemma_visits_take_step(tr, t, pixel);
        lemma_visits_take_le(tr, t + 1, pixel);
    }
}

/// A fresh all-zero histogram: three channel counters for each pixel.
pub fn new_buffer(pixels: usize) -> (r: Vec<u32>)
    requires
        pixels <= usize::MAX / 3,
    ensures
        r.len() == 3 * pixels,
        forall|k: int| 0 <= k < r.len() ==> r@[k] == 0u32,
{
    let n = 3 * pixels;
    let mut r: Vec<u32> = Vec::new();
    let mut k: usize = 0;
    while k < n
        invariant
            k <= n,
            r.len() == k,
            forall|q: int| 0 <= q < k ==> r@[q] == 0u32,
        decreases n - k,
    {
        r.push(0);
        k = k + 1;
    }
    r
}

/// Credit one escaped trajectory to the histogram: every recorded visit to a
/// pixel raises that pixel's counter by one on exactly the channels whose
/// threshold is at least the escape count. Counters never decrease.
pub fn commit_trajectory(
    buffer: &mut Vec<u32>,
    trajectory: &Vec<usize>,
    escape_count: usize,
    thresholds: &Vec<usize>,
)
    requires
        thresholds.len() == 3,
        old(buffer).len() % 3 == 0,
        forall|t: int| 0 <= t < trajectory.len() ==> trajectory@[t] < old(buffer).len() / 3,
        forall|pix: int, ch: int|
            0 <= pix < old(buffer).len() / 3 && 0 <= ch < 3 ==> old(buffer)@[#[trigger] triple_pos(
                pix,
                ch,
            )] + visits(trajectory@, pix) <= u32::MAX,
    ensures
        final(buffer).len() == old(buffer).len(),
        forall|pix: int, ch: int|
            0 <= pix < old(buffer).len() / 3 && 0 <= ch < 3 ==> final(buffer)@[#[trigger] triple_pos(
                pix,
                ch,
            )] == old(buffer)@[triple_pos(pix, ch)] + (if thresholds@[ch] >= escape_count {
                visits(trajectory@, pix)
            } else {
                0nat
            }),
        forall|k: int| 0 <= k < old(buffer).len() ==> final(buffer)@[k] >= old(buffer)@[k],
{
    let steps = trajectory.len();
    let mut t: usize = 0;
    proof {
        assert(trajectory@.take(0) =~= Seq::<usize>::empty());
    }
    while t < steps
        invariant
            t <= steps,
            steps == trajectory.len(),
            thresholds.len() == 3,
            buffer.len() == old(buffer).len(),
            old(buffer).len() % 3 == 0,
            forall|tt: int| 0 <= tt < trajectory.len() ==> trajectory@[tt] < old(buffer).len() / 3,
            forall|pix: int, ch: int|
                0 <= pix < old(buffer).len() / 3 && 0 <= ch < 3 ==> old(buffer)@[#[trigger] triple_pos(
                    pix,
                    ch,
                )] + visits(trajectory@, pix) <= u32::MAX,
            forall|pix: int, ch: int|
                0 <= pix < old(buffer).len() / 3 && 0 <= ch < 3 ==> buffer@[#[trigger] triple_pos(
                    pix,
                    ch,
                )] == old(buffer)@[triple_pos(pix, ch)] + (if thresholds@[ch] >= escape_count {
                    visits(trajectory@.take(t as int), pix)
                } else {
                    0nat
                }),
        decreases steps - t,
    {
        let idx = trajectory[t];
        let mut ch: usize = 0;
        proof {
            lemma_visits_take_step(trajectory@, t as int, idx as int);
            lemma_visits_take_le(trajectory@, t as int + 1, idx as int);
            assert forall|pix: int|
                0 <= pix < old(buffer).len() / 3 && pix != idx implies visits(
                trajectory@.take(t as int + 1),
                pix,
            ) == visits(trajectory@.take(t as int), pix) by {
                lemma_visits_take_step(trajectory@, t as int, pix);
            }
        }
        while ch < 3
            invariant
                ch <= 3,
                t < steps,
                steps == trajectory.len(),
                thresholds.len() == 3,
                idx == trajectory@[t as int],
                idx < old(buffer).len() / 3,
                buffer.len() == old(buffer).len(),
                old(buffer).len() % 3 == 0,
                visits(trajectory@.take(t as int + 1), idx as int) == visits(
                    trajectory@.take(t as int),
                    idx as int,
                ) + 1,
                visits(trajectory@.take(t as int + 1), idx as int) <= visits(
                    trajectory@,
                    idx as int,
                ),
                forall|pix: int, ch: int|
                    0 <= pix < old(buffer).len() / 3 && 0 <= ch < 3 ==> old(
                        buffer,
                    )@[#[trigger] triple_pos(pix, ch)] + visits(trajectory@, pix) <= u32::MAX,
                forall|pix: int, cc: int|
                    0 <= pix < old(buffer).len() / 3 && 0 <= cc < 3 ==> buffer@[#[trigger] triple_pos(
                        pix,
                        cc,
                    )] == old(buffer)@[triple_pos(pix, cc)] + (if thresholds@[cc] >= escape_count {
                        visits(trajectory@.take(t as int), pix) + (if pix == idx && cc < ch {
                            1nat
                        } else {
                            0nat
                        })
                    } else {
                        0nat
                    }),
            decreases 3 - ch,
        {
            if thresholds[ch] >= escape_count {
                let pos = 3 * idx + ch;
                proof {
                    assert(pos == triple_pos(idx as int, ch as int));
                    assert(old(buffer)@[triple_pos(idx as int, ch as int)] + visits(
                        trajectory@,
                        idx as int,
                    ) <= u32::MAX);
                    assert(visits(trajectory@.take(t as int), idx as int) + 1 <= visits(
                        trajectory@,
                        idx as int,
                    ));
                }
                let cur = buffer[pos];
                buffer[pos] = cur + 1;
            }
            ch = ch + 1;
        }
        t = t + 1;
        proof {
            assert forall|pix: int|
                0 <= pix < old(buffer).len() / 3 implies visits(trajectory@.take(t as int), pix)
                == visits(trajectory@.take(t as int - 1), pix) + (if pix == idx {
                1nat
            } else {
                0nat
            }) by {
                lemma_visits_take_step(trajectory@, t as int - 1, pix);
            }
        }
    }
    proof {
        assert(trajectory@.take(steps as int) =~= trajectory@);
        assert forall|k: int| 0 <= k < old(buffer).len() implies buffer@[k] >= old(
            buffer,
        )@[k] by {
            let pix = k / 3;
            let cc = k % 3;
            assert(k == triple_pos(pix, cc));
        }
    }
}

/// The largest counter of one channel across all pixels; zero on an empty
/// histogram.
pub fn max_of_channel(buffer: &Vec<u32>, ch: usize) -> (r: u32)
    requires
        buffer.len() % 3 == 0,
        ch < 3,
    ensures
        forall|pix: int|
            0 <= pix < buffer.len() / 3 ==> buffer@[#[trigger] triple_pos(pix, ch as int)] <= r,
        r == 0 || exists|pix: int|
            0 <= pix < buffer.len() / 3 && buffer@[#[trigger] triple_pos(pix, ch as int)] == r,
{
    let pixels = buffer.len() / 3;
    let mut m: u32 = 0;
    let mut pix: usize = 0;
    while pix < pixels
        invariant
            pix <= pixels,
            pixels == buffer.len() / 3,
            buffer.len() % 3 == 0,
            ch < 3,
            forall|q: int| 0 <= q < pix ==> buffer@[#[trigger] triple_pos(q, ch as int)] <= m,
            m == 0 || exists|q: int|
                0 <= q < pix && buffer@[#[trigger] triple_pos(q, ch as int)] == m,
        decreases pixels - pix,
    {
        proof {
            assert(3 * pix + ch == triple_pos(pix as int, ch as int));
        }
        let v = buffer[3 * pix + ch];
        if v > m {
            m = v;
        }
        pix = pix + 1;
    }
    m
}

/// The per-channel maxima of the whole histogram, in channel order.
pub fn channel_maxima(buffer: &Vec<u32>) -> (r: Vec<u32>)
    requires
        buffer.len() % 3 == 0,
    ensures
        r.len() == 3,
        forall|ch: int, pix: int|
            0 <= ch < 3 && 0 <= pix < buffer.len() / 3 ==> buffer@[#[trigger] triple_pos(pix, ch)]
                <= r@[ch],
        forall|ch: int|
            0 <= ch < 3 ==> (r@[ch] == 0 || exists|pix: int|
                0 <= pix < buffer.len() / 3 && buffer@[#[trigger] triple_pos(pix, ch)] == r@[ch]),
{
    let m0 = max_of_channel(buffer, 0);
    let m1 = max_of_channel(buffer, 1);
    let m2 = max_of_channel(buffer, 2);
    let mut r: Vec<u32> = Vec::new();
    r.push(m0);
    r.push(m1);
    r.push(m2);
    r
}

/// The iteration budget for the sampler: the largest of the per-channel
/// thresholds.
pub fn iteration_limit(thresholds: &Vec<usize>) -> (r: usize)
    requires
        thresholds.len() > 0,
    ensures
        forall|i: int| 0 <= i < thresholds.len() ==> thresholds@[i] <= r,
        exists|i: int| 0 <= i < thresholds.len() && thresholds@[i] == r,
{
    let mut m = thresholds[0];
    let mut i: usize = 1;
    while i < thresholds.len()
        invariant
            1 <= i <= thresholds.len(),
            forall|q: int| 0 <= q < i ==> thresholds@[q] <= m,
            exists|q: int| 0 <= q < i && thresholds@[q] == m,
        decreases thresholds.len() - i,
    {
        let v = thresholds[i];
        if v > m {
            m = v;
        }
        i = i + 1;
    }
    m
}

/// Law: over an all-zero histogram every channel maximum is zero, so a
/// colour mapping that scales by a channel maximum has nothing to divide by
/// and owes an all-zero output.
pub proof fn lemma_zero_buffer_zero_maxima(buf: Seq<u32>, maxima: Seq<u32>)
    requires
        buf.len() % 3 == 0,
        maxima.len() == 3,
        forall|k: int| 0 <= k < buf.len() ==> buf[k] == 0u32,
        forall|ch: int|
            0 <= ch < 3 ==> (maxima[ch] == 0 || exists|pix: int|
                0 <= pix < buf.len() / 3 && buf[#[trigger] triple_pos(pix, ch)] == maxima[ch]),
    ensures
        forall|ch: int| 0 <= ch < 3 ==> maxima[ch] == 0,
{
    assert forall|ch: int| 0 <= ch < 3 implies maxima[ch] == 0 by {
        if maxima[ch] != 0 {
            let pix = choose|pix: int|
                0 <= pix < buf.len() / 3 && buf[#[trigger] triple_pos(pix, ch)] == maxima[ch];
            assert(buf[triple_pos(pix, ch)] == 0u32);
        }
    }
}

} // verus!
