//! Per-class overlap suppression, cross-class pairing and proximity order.
use crate::geometry::{Bbox, Point2f, Ratio, FULL_CONFIDENCE, span, sq};
use vstd::prelude::*;

verus! {

/// Width of the secondary region manufactured inside a primary region, as a
/// fraction of the primary width.
pub const HEAD_SCALE_X_NUM: u32 = 2;

pub const HEAD_SCALE_X_DEN: u32 = 5;

/// Height of the manufactured secondary region, as a fraction of the primary
/// height.
pub const HEAD_SCALE_Y_NUM: u32 = 1;

pub const HEAD_SCALE_Y_DEN: u32 = 3;

// ---------------------------------------------------------------------------
// Stable ordering by an integer key
// ---------------------------------------------------------------------------

/// `x` placed before the first element whose key is larger than its own.
pub open spec fn insert_by(s: Seq<Bbox>, x: Bbox, key: spec_fn(Bbox) -> int) -> Seq<Bbox>
    decreases s.len(),
{
    if s.len() == 0 {
        seq![x]
    } else if key(s[0]) <= key(x) {
        seq![s[0]] + insert_by(s.drop_first(), x, key)
    } else {
        seq![x] + s
    }
}

/// Stable ascending order by `key`: each element in turn is placed after
/// every earlier one whose key is not larger.
pub open spec fn sort_by_key(s: Seq<Bbox>, key: spec_fn(Bbox) -> int) -> Seq<Bbox>
    decreases s.len(),
{
    if s.len() == 0 {
        Seq::empty()
    } else {
        insert_by(sort_by_key(s.drop_last(), key), s.last(), key)
    }
}

pub open spec fn sorted_by(s: Seq<Bbox>, key: spec_fn(Bbox) -> int) -> bool {
    forall|i: int, j: int| 0 <= i < j < s.len() ==> key(s[i]) <= key(s[j])
}

/// Key under which higher confidence comes first.
pub open spec fn confidence_key() -> spec_fn(Bbox) -> int {
    |b: Bbox| -(b.confidence as int)
}

/// Twice the centre of `b`, so that no halving is rounded.
pub open spec fn doubled_dist2(b: Bbox, p: Point2f) -> int {
    sq(2 * b.xmin + b.width - 2 * p.x) + sq(2 * b.ymin + b.height - 2 * p.y)
}

/// Key under which regions whose centre is nearer `p` come first.
pub open spec fn distance_key(p: Point2f) -> spec_fn(Bbox) -> int {
    |b: Bbox| doubled_dist2(b, p)
}

proof fn lemma_insert_at(s: Seq<Bbox>, x: Bbox, key: spec_fn(Bbox) -> int, i: int)
    requires
        0 <= i <= s.len(),
        forall|j: int| 0 <= j < i ==> key(#[trigger] s[j]) <= key(x),
        i < s.len() ==> key(s[i]) > key(x),
    ensures
        insert_by(s, x, key) == s.insert(i, x),
    decreases s.len(),
{
    if s.len() == 0 {
        assert(insert_by(s, x, key) =~= s.insert(i, x));
    } else if i == 0 {
        assert(insert_by(s, x, key) =~= s.insert(i, x));
    } else {
        let t = s.drop_first();
        assert forall|j: int| 0 <= j < i - 1 implies key(#[trigger] t[j]) <= key(x) by {
            assert(t[j] == s[j + 1]);
        }
        lemma_insert_at(t, x, key, i - 1);
        assert(insert_by(s, x, key) =~= s.insert(i, x));
    }
}

/// Where `insert_by` places its element.
pub open spec fn insert_pos(s: Seq<Bbox>, x: Bbox, key: spec_fn(Bbox) -> int) -> int
    decreases s.len(),
{
    if s.len() == 0 {
        0
    } else if key(s[0]) <= key(x) {
        1 + insert_pos(s.drop_first(), x, key)
    } else {
        0
    }
}

proof fn lemma_insert_pos(s: Seq<Bbox>, x: Bbox, key: spec_fn(Bbox) -> int)
    ensures
        0 <= insert_pos(s, x, key) <= s.len(),
        insert_by(s, x, key) == s.insert(insert_pos(s, x, key), x),
        forall|j: int| 0 <= j < insert_pos(s, x, key) ==> key(#[trigger] s[j]) <= key(x),
        insert_pos(s, x, key) < s.len() ==> key(s[insert_pos(s, x, key)]) > key(x),
    decreases s.len(),
{
    if s.len() > 0 && key(s[0]) <= key(x) {
        let t = s.drop_first();
        lemma_insert_pos(t, x, key);
        assert forall|j: int| 0 <= j < insert_pos(s, x, key) implies key(#[trigger] s[j]) <= key(
            x,
        ) by {
            if j > 0 {
                assert(s[j] == t[j - 1]);
            }
        }
    }
    assert(insert_by(s, x, key) =~= s.insert(insert_pos(s, x, key), x));
}

proof fn lemma_insert_sorted(s: Seq<Bbox>, x: Bbox, key: spec_fn(Bbox) -> int)
    requires
        sorted_by(s, key),
    ensures
        sorted_by(insert_by(s, x, key), key),
        insert_by(s, x, key).to_multiset() == s.to_multiset().insert(x),
{
    lemma_insert_pos(s, x, key);
    let p = insert_pos(s, x, key);
    let r = s.insert(p, x);
    broadcast use vstd::seq_lib::to_multiset_insert;
    assert forall|i: int, j: int| 0 <= i < j < r.len() implies key(r[i]) <= key(r[j]) by {
        if j < p {
            assert(r[i] == s[i] && r[j] == s[j]);
        } else if j == p {
            assert(r[i] == s[i]);
        } else if i < p {
            assert(r[i] == s[i] && r[j] == s[j - 1]);
        } else if i == p {
            assert(r[j] == s[j - 1]);
            assert(key(s[p]) <= key(s[j - 1]) || p == j - 1);
        } else {
            assert(r[i] == s[i - 1] && r[j] == s[j - 1]);
        }
    }
}

/// The stable order is ascending by its key and holds the same regions.
pub proof fn lemma_sort_by_key(s: Seq<Bbox>, key: spec_fn(Bbox) -> int)
    ensures
        sorted_by(sort_by_key(s, key), key),
        sort_by_key(s, key).to_multiset() == s.to_multiset(),
    decreases s.len(),
{
    if s.len() > 0 {
        lemma_sort_by_key(s.drop_last(), key);
        lemma_insert_sorted(sort_by_key(s.drop_last(), key), s.last(), key);
        broadcast use vstd::seq_lib::group_seq_properties;
        assert(s =~= s.drop_last().push(s.last()));
    } else {
        assert(sort_by_key(s, key) =~= s);
    }
}

/// Stable insertion sort of `items`, whose keys are given in `keys`.
fn sort_keyed(items: &Vec<Bbox>, keys: &Vec<i128>, Ghost(key): Ghost<spec_fn(Bbox) -> int>) -> (r:
    Vec<Bbox>)
    requires
        items@.len() == keys@.len(),
        forall|i: int| 0 <= i < items@.len() ==> keys@[i] == key(#[trigger] items@[i]),
    ensures
        r@ == sort_by_key(items@, key),
{
    let mut out: Vec<Bbox> = Vec::new();
    let mut out_keys: Vec<i128> = Vec::new();
    let n = items.len();
    let mut k: usize = 0;
    while k < n
        invariant
            n == items@.len(),
            n == keys@.len(),
            0 <= k <= n,
            forall|i: int| 0 <= i < items@.len() ==> keys@[i] == key(#[trigger] items@[i]),
            out@ == sort_by_key(items@.take(k as int), key),
            out_keys@.len() == out@.len(),
            forall|i: int| 0 <= i < out@.len() ==> out_keys@[i] == key(#[trigger] out@[i]),
        decreases n - k,
    {
        let x = items[k];
        let kx = keys[k];
        let mut pos: usize = 0;
        while pos < out.len() && out_keys[pos] <= kx
            invariant
                0 <= pos <= out@.len(),
                out_keys@.len() == out@.len(),
                kx == key(x),
                forall|i: int| 0 <= i < out@.len() ==> out_keys@[i] == key(#[trigger] out@[i]),
                forall|j: int| 0 <= j < pos ==> key(#[trigger] out@[j]) <= key(x),
            decreases out@.len() - pos,
        {
            pos = pos + 1;
        }
        proof {
            lemma_insert_at(out@, x, key, pos as int);
            assert(items@.take(k as int + 1).drop_last() =~= items@.take(k as int));
        }
        out.insert(pos, x);
        out_keys.insert(pos, kx);
        proof {
            assert forall|i: int| 0 <= i < out@.len() implies out_keys@[i] == key(
                #[trigger] out@[i],
            ) by {
                if i < pos {
                } else if i == pos {
                } else {
                }
            }
        }
        k = k + 1;
    }
    assert(items@.take(n as int) =~= items@);
    out
}

// ---------------------------------------------------------------------------
// Greedy suppression
// ---------------------------------------------------------------------------

/// Some region of `kept` overlaps `x` by more than `t`.
pub open spec fn conflicts(kept: Seq<Bbox>, x: Bbox, t: Ratio) -> bool {
    exists|j: int| 0 <= j < kept.len() && (#[trigger] kept[j]).iou_above(x, t)
}

/// Walk `s` in order, keeping each region that overlaps no region kept
/// before it by more than `t`.
pub open spec fn greedy_keep(s: Seq<Bbox>, t: Ratio) -> Seq<Bbox>
    decreases s.len(),
{
    if s.len() == 0 {
        Seq::empty()
    } else {
        let k = greedy_keep(s.drop_last(), t);
        if conflicts(k, s.last(), t) {
            k
        } else {
            k.push(s.last())
        }
    }
}

/// Greedy suppression over the regions ordered by descending confidence.
pub open spec fn suppressed(s: Seq<Bbox>, t: Ratio) -> Seq<Bbox> {
    greedy_keep(sort_by_key(s, confidence_key()), t)
}

/// No two distinct regions of `s` overlap by more than `t`.
pub open spec fn separated(s: Seq<Bbox>, t: Ratio) -> bool {
    forall|i: int, j: int|
        0 <= i < s.len() && 0 <= j < s.len() && i != j ==> !(#[trigger] s[i]).iou_above(
            #[trigger] s[j],
            t,
        )
}

proof fn lemma_greedy_separated(s: Seq<Bbox>, t: Ratio)
    ensures
        separated(greedy_keep(s, t), t),
    decreases s.len(),
{
    if s.len() > 0 {
        lemma_greedy_separated(s.drop_last(), t);
        let k = greedy_keep(s.drop_last(), t);
        let x = s.last();
        if !conflicts(k, x, t) {
            let r = k.push(x);
            assert forall|i: int, j: int|
                0 <= i < r.len() && 0 <= j < r.len() && i != j implies !(#[trigger] r[i]).iou_above(
                #[trigger] r[j],
                t,
            ) by {
                if i == k.len() {
                    assert(!k[j].iou_above(x, t));
                    crate::geometry::lemma_iou_symmetric(k[j], x, t);
                } else if j == k.len() {
                    assert(!k[i].iou_above(x, t));
                } else {
                    assert(r[i] == k[i] && r[j] == k[j]);
                }
            }
        }
    }
}

/// After suppression no two retained regions overlap by more than the
/// threshold, and every retained region was among the input.
pub proof fn lemma_suppression_separated(s: Seq<Bbox>, t: Ratio)
    ensures
        separated(suppressed(s, t), t),
{
    lemma_greedy_separated(sort_by_key(s, confidence_key()), t);
}

/// Suppress overlapping regions of one class: order by descending confidence
/// (ties keep their input order), then keep each region unless it overlaps an
/// already kept one by more than `iou`.
pub fn non_max_suppression(xs: &mut Vec<Bbox>, iou: Ratio)
    ensures
        final(xs)@ == suppressed(old(xs)@, iou),
{
    let mut keys: Vec<i128> = Vec::new();
    let mut i: usize = 0;
    while i < xs.len()
        invariant
            0 <= i <= xs@.len(),
            keys@.len() == i,
            forall|j: int| 0 <= j < i ==> keys@[j] == (confidence_key())(#[trigger] xs@[j]),
        decreases xs@.len() - i,
    {
        keys.push(-(xs[i].confidence as i128));
        i = i + 1;
    }
    let sorted = sort_keyed(xs, &keys, Ghost(confidence_key()));
    let mut kept: Vec<Bbox> = Vec::new();
    let n = sorted.len();
    let mut k: usize = 0;
    while k < n
        invariant
            n == sorted@.len(),
            0 <= k <= n,
            kept@ == greedy_keep(sorted@.take(k as int), iou),
        decreases n - k,
    {
        let x = sorted[k];
        let mut drop = false;
        let mut j: usize = 0;
        while j < kept.len()
            invariant
                0 <= j <= kept@.len(),
                drop == (exists|m: int| 0 <= m < j && (#[trigger] kept@[m]).iou_above(x, iou)),
            decreases kept@.len() - j,
        {
            if kept[j].iou_exceeds(&x, iou) {
                drop = true;
            }
            j = j + 1;
        }
        proof {
            assert(sorted@.take(k as int + 1).drop_last() =~= sorted@.take(k as int));
            assert(sorted@.take(k as int + 1).last() == x);
        }
        if !drop {
            kept.push(x);
        }
        k = k + 1;
    }
    assert(sorted@.take(n as int) =~= sorted@);
    *xs = kept;
}

// ---------------------------------------------------------------------------
// Cross-class pairing
// ---------------------------------------------------------------------------

/// Best unused partner among the first `n` secondary regions for primary
/// `p`: (index or -1, its intersection, its union). A candidate must reach
/// `t` and beat the best so far strictly, so the first of equals wins; the
/// search starts from a ratio of zero.
pub open spec fn best_upto(p: Bbox, secs: Seq<Bbox>, used: Seq<bool>, t: Ratio, n: int) -> (
    int,
    int,
    int,
)
    decreases n,
{
    if n <= 0 {
        (-1, 0, 1)
    } else {
        let b = best_upto(p, secs, used, t, n - 1);
        let c = secs[n - 1];
        if !used[n - 1] && p.iou_at_least(c, t) && p.inter_spec(c) * b.2 > b.1 * p.union_spec(c) {
            (n - 1, p.inter_spec(c), p.union_spec(c))
        } else {
            b
        }
    }
}

/// The secondary region that stands in for a missing partner of `p`: centred
/// horizontally, sharing the top edge, scaled by the head ratios.
pub open spec fn synthesized(p: Bbox) -> Bbox {
    Bbox {
        xmin: (p.xmin + (p.width * (HEAD_SCALE_X_DEN - HEAD_SCALE_X_NUM)) / (2
            * HEAD_SCALE_X_DEN as int)) as i32,
        ymin: p.ymin,
        width: ((p.width * HEAD_SCALE_X_NUM) / (HEAD_SCALE_X_DEN as int)) as u16,
        height: ((p.height * HEAD_SCALE_Y_NUM) / (HEAD_SCALE_Y_DEN as int)) as u16,
        confidence: FULL_CONFIDENCE,
        class: 1,
    }
}

/// Partners for the first `i` primaries, and which secondaries they consumed.
pub open spec fn pair_upto(prims: Seq<Bbox>, secs: Seq<Bbox>, t: Ratio, i: int) -> (
    Seq<Bbox>,
    Seq<bool>,
)
    decreases i,
{
    if i <= 0 {
        (Seq::empty(), Seq::new(secs.len(), |j: int| false))
    } else {
        let prev = pair_upto(prims, secs, t, i - 1);
        let b = best_upto(prims[i - 1], secs, prev.1, t, secs.len() as int);
        if b.0 >= 0 {
            (prev.0.push(secs[b.0]), prev.1.update(b.0, true))
        } else {
            (prev.0.push(synthesized(prims[i - 1])), prev.1)
        }
    }
}

/// One partner per primary region, in the primaries' order.
pub open spec fn paired(prims: Seq<Bbox>, secs: Seq<Bbox>, t: Ratio) -> Seq<Bbox> {
    pair_upto(prims, secs, t, prims.len() as int).0
}

/// A partner manufactured for a primary region keeps its left edge inside
/// the primary's extent, so its coordinate fits.
pub open spec fn pairable(prims: Seq<Bbox>) -> bool {
    forall|i: int| 0 <= i < prims.len() ==> (#[trigger] prims[i]).right() <= i32::MAX
}

proof fn lemma_best_range(p: Bbox, secs: Seq<Bbox>, used: Seq<bool>, t: Ratio, n: int)
    requires
        0 <= n <= secs.len(),
        used.len() == secs.len(),
    ensures
        -1 <= best_upto(p, secs, used, t, n).0 < n,
        best_upto(p, secs, used, t, n).0 >= 0 ==> !used[best_upto(p, secs, used, t, n).0],
        best_upto(p, secs, used, t, n).0 >= 0 ==> p.iou_at_least(
            secs[best_upto(p, secs, used, t, n).0],
            t,
        ),
        0 <= best_upto(p, secs, used, t, n).1 <= 0x100000000,
        0 < best_upto(p, secs, used, t, n).2 <= 0x200000000,
    decreases n,
{
    if n > 0 {
        lemma_best_range(p, secs, used, t, n - 1);
        let c = secs[n - 1];
        assert(0 <= span(p.xmin as int, p.right(), c.xmin as int, c.right()) <= 0x10000);
        assert(0 <= span(p.ymin as int, p.bottom(), c.ymin as int, c.bottom()) <= 0x10000);
        crate::geometry::lemma_mul_bound(
            span(p.xmin as int, p.right(), c.xmin as int, c.right()),
            span(p.ymin as int, p.bottom(), c.ymin as int, c.bottom()),
            0x10000,
            0x10000,
        );
        crate::geometry::lemma_mul_bound(p.width as int, p.height as int, 0xffff, 0xffff);
        crate::geometry::lemma_mul_bound(c.width as int, c.height as int, 0xffff, 0xffff);
    }
}

proof fn lemma_pair_len(prims: Seq<Bbox>, secs: Seq<Bbox>, t: Ratio, i: int)
    requires
        0 <= i <= prims.len(),
    ensures
        pair_upto(prims, secs, t, i).0.len() == i,
        pair_upto(prims, secs, t, i).1.len() == secs.len(),
    decreases i,
{
    if i > 0 {
        lemma_pair_len(prims, secs, t, i - 1);
        let prev = pair_upto(prims, secs, t, i - 1);
        lemma_best_range(prims[i - 1], secs, prev.1, t, secs.len() as int);
    }
}

/// Every primary region has exactly one partner after pairing: the partner
/// list is as long as the primary list, and each partner is either a
/// secondary region of the input or the one manufactured from its primary.
pub proof fn lemma_pairing_one_each(prims: Seq<Bbox>, secs: Seq<Bbox>, t: Ratio)
    ensures
        paired(prims, secs, t).len() == prims.len(),
        forall|i: int|
            0 <= i < prims.len() ==> secs.contains(#[trigger] paired(prims, secs, t)[i])
                || paired(prims, secs, t)[i] == synthesized(prims[i]),
{
    lemma_pair_one_each_upto(prims, secs, t, prims.len() as int);
}

proof fn lemma_pair_one_each_upto(prims: Seq<Bbox>, secs: Seq<Bbox>, t: Ratio, n: int)
    requires
        0 <= n <= prims.len(),
    ensures
        pair_upto(prims, secs, t, n).0.len() == n,
        forall|i: int|
            0 <= i < n ==> secs.contains(#[trigger] pair_upto(prims, secs, t, n).0[i])
                || pair_upto(prims, secs, t, n).0[i] == synthesized(prims[i]),
    decreases n,
{
    lemma_pair_len(prims, secs, t, n);
    if n > 0 {
        lemma_pair_one_each_upto(prims, secs, t, n - 1);
        let prev = pair_upto(prims, secs, t, n - 1);
        lemma_pair_len(prims, secs, t, n - 1);
        let b = best_upto(prims[n - 1], secs, prev.1, t, secs.len() as int);
        lemma_best_range(prims[n - 1], secs, prev.1, t, secs.len() as int);
        let cur = pair_upto(prims, secs, t, n).0;
        assert forall|i: int| 0 <= i < n implies secs.contains(#[trigger] cur[i]) || cur[i]
            == synthesized(prims[i]) by {
            if i < n - 1 {
                assert(cur[i] == prev.0[i]);
            } else if b.0 >= 0 {
                assert(cur[i] == secs[b.0]);
            }
        }
    }
}

/// Index of the secondary region chosen for primary `i`, or -1 when its
/// partner was manufactured.
pub open spec fn partner_index(prims: Seq<Bbox>, secs: Seq<Bbox>, t: Ratio, i: int) -> int {
    best_upto(prims[i], secs, pair_upto(prims, secs, t, i).1, t, secs.len() as int).0
}

proof fn lemma_used_grows(prims: Seq<Bbox>, secs: Seq<Bbox>, t: Ratio, i: int, k: int, j: int)
    requires
        0 <= i <= k <= prims.len(),
        0 <= j < secs.len(),
        pair_upto(prims, secs, t, i).1[j],
    ensures
        pair_upto(prims, secs, t, k).1[j],
    decreases k - i,
{
    if k > i {
        lemma_used_grows(prims, secs, t, i, k - 1, j);
        lemma_pair_len(prims, secs, t, k - 1);
        let prev = pair_upto(prims, secs, t, k - 1);
        lemma_best_range(prims[k - 1], secs, prev.1, t, secs.len() as int);
    }
}

/// Pairing consumes each secondary region at most once: a primary region's
/// partner is the secondary region at its chosen index, or the manufactured
/// one when there is none, and no two primaries share a chosen index.
pub proof fn lemma_pairing_consumes_once(prims: Seq<Bbox>, secs: Seq<Bbox>, t: Ratio)
    ensures
        forall|i: int|
            0 <= i < prims.len() ==> -1 <= #[trigger] partner_index(prims, secs, t, i) < secs.len()
                && paired(prims, secs, t)[i] == (if partner_index(prims, secs, t, i) >= 0 {
                secs[partner_index(prims, secs, t, i)]
            } else {
                synthesized(prims[i])
            }),
        forall|i1: int, i2: int|
            0 <= i1 < prims.len() && 0 <= i2 < prims.len() && i1 != i2 && #[trigger] partner_index(
                prims,
                secs,
                t,
                i1,
            ) >= 0 ==> partner_index(prims, secs, t, i1) != #[trigger] partner_index(
                prims,
                secs,
                t,
                i2,
            ),
{
    let n = prims.len() as int;
    assert forall|i: int| 0 <= i < n implies -1 <= #[trigger] partner_index(prims, secs, t, i)
        < secs.len() && paired(prims, secs, t)[i] == (if partner_index(prims, secs, t, i) >= 0 {
        secs[partner_index(prims, secs, t, i)]
    } else {
        synthesized(prims[i])
    }) by {
        lemma_pair_prefix(prims, secs, t, i + 1, n);
        lemma_pair_len(prims, secs, t, i);
        lemma_pair_len(prims, secs, t, n);
        lemma_best_range(prims[i], secs, pair_upto(prims, secs, t, i).1, t, secs.len() as int);
        let full = pair_upto(prims, secs, t, n).0;
        assert(full.take(i + 1)[i] == full[i]);
        assert(pair_upto(prims, secs, t, i + 1).0[i] == (if partner_index(prims, secs, t, i)
            >= 0 {
            secs[partner_index(prims, secs, t, i)]
        } else {
            synthesized(prims[i])
        }));
    }
    assert forall|i1: int, i2: int|
        0 <= i1 < n && 0 <= i2 < n && i1 != i2 && #[trigger] partner_index(prims, secs, t, i1)
            >= 0 implies partner_index(prims, secs, t, i1) != #[trigger] partner_index(
        prims,
        secs,
        t,
        i2,
    ) by {
        let (a, b) = if i1 < i2 {
            (i1, i2)
        } else {
            (i2, i1)
        };
        lemma_pair_len(prims, secs, t, a);
        lemma_pair_len(prims, secs, t, b);
        lemma_best_range(prims[a], secs, pair_upto(prims, secs, t, a).1, t, secs.len() as int);
        lemma_best_range(prims[b], secs, pair_upto(prims, secs, t, b).1, t, secs.len() as int);
        let ja = partner_index(prims, secs, t, a);
        let jb = partner_index(prims, secs, t, b);
        if ja >= 0 {
            assert(pair_upto(prims, secs, t, a + 1).1[ja]);
            lemma_used_grows(prims, secs, t, a + 1, b, ja);
        }
        if jb >= 0 && ja >= 0 {
            assert(ja != jb);
        }
    }
}

/// The partners of the first `i` primaries do not change as more are paired.
proof fn lemma_pair_prefix(prims: Seq<Bbox>, secs: Seq<Bbox>, t: Ratio, i: int, k: int)
    requires
        0 <= i <= k <= prims.len(),
    ensures
        pair_upto(prims, secs, t, k).0.take(i) == pair_upto(prims, secs, t, i).0,
    decreases k - i,
{
    lemma_pair_len(prims, secs, t, i);
    if k > i {
        lemma_pair_prefix(prims, secs, t, i, k - 1);
        lemma_pair_len(prims, secs, t, k - 1);
        let prev = pair_upto(prims, secs, t, k - 1);
        lemma_best_range(prims[k - 1], secs, prev.1, t, secs.len() as int);
        assert(pair_upto(prims, secs, t, k).0.take(i) =~= prev.0.take(i));
    } else {
        assert(pair_upto(prims, secs, t, k).0.take(i) =~= pair_upto(prims, secs, t, i).0);
    }
}

/// Container of the regions of one frame, one list per class.
#[derive(Clone, Debug)]
pub struct Bboxes {
    /// Primary-class regions.
    pub class_0: Vec<Bbox>,
    /// Secondary-class regions.
    pub class_1: Vec<Bbox>,
}

impl Bboxes {
    pub fn new() -> (r: Bboxes)
        ensures
            r.class_0@.len() == 0,
            r.class_1@.len() == 0,
    {
        Bboxes { class_0: Vec::new(), class_1: Vec::new() }
    }

    /// Append to the primary list for class 0, to the secondary list otherwise.
    pub fn push(&mut self, bbox: Bbox, class: usize)
        ensures
            class == 0 ==> final(self).class_0@ == old(self).class_0@.push(bbox)
                && final(self).class_1@ == old(self).class_1@,
            class != 0 ==> final(self).class_1@ == old(self).class_1@.push(bbox)
                && final(self).class_0@ == old(self).class_0@,
    {
        if class == 0 {
            self.class_0.push(bbox);
        } else {
            self.class_1.push(bbox);
        }
    }

    /// Replace the secondary list by one partner per primary region: the
    /// unused secondary region whose overlap reaches `iou` and is highest, or
    /// a region manufactured inside the primary when there is none.
    pub fn build(&mut self, iou: Ratio)
        requires
            pairable(old(self).class_0@),
        ensures
            final(self).class_0@ == old(self).class_0@,
            final(self).class_1@ == paired(old(self).class_0@, old(self).class_1@, iou),
    {
        let ghost prims = self.class_0@;
        let ghost secs = self.class_1@;
        let n0 = self.class_0.len();
        let n1 = self.class_1.len();
        let mut out: Vec<Bbox> = Vec::new();
        let mut removed: Vec<bool> = Vec::new();
        let mut j: usize = 0;
        while j < n1
            invariant
                0 <= j <= n1,
                removed@ == Seq::new(j as nat, |k: int| false),
            decreases n1 - j,
        {
            removed.push(false);
            j = j + 1;
            assert(removed@ =~= Seq::new(j as nat, |k: int| false));
        }
        let mut i: usize = 0;
        while i < n0
            invariant
                prims == self.class_0@,
                secs == self.class_1@,
                n0 == prims.len(),
                n1 == secs.len(),
                pairable(prims),
                0 <= i <= n0,
                out@ == pair_upto(prims, secs, iou, i as int).0,
                removed@ == pair_upto(prims, secs, iou, i as int).1,
            decreases n0 - i,
        {
            proof {
                lemma_pair_len(prims, secs, iou, i as int);
            }
            let p = self.class_0[i];
            let mut max_i: i128 = 0;
            let mut max_u: i128 = 1;
            let mut max_index: usize = 0;
            let mut found = false;
            let mut k: usize = 0;
            while k < n1
                invariant
                    prims == self.class_0@,
                    secs == self.class_1@,
                    n1 == secs.len(),
                    removed@.len() == n1,
                    0 <= k <= n1,
                    p == prims[i as int],
                    (if found {
                        max_index as int
                    } else {
                        -1
                    }, max_i as int, max_u as int) == best_upto(
                        p,
                        secs,
                        removed@,
                        iou,
                        k as int,
                    ),
                decreases n1 - k,
            {
                proof {
                    lemma_best_range(p, secs, removed@, iou, k as int);
                }
                if !removed[k] {
                    let c = self.class_1[k];
                    if p.iou_reaches(&c, iou) {
                        let (ci, cu) = p.iou(&c);
                        proof {
                            crate::geometry::lemma_mul_bound(
                                ci as int,
                                max_u as int,
                                0x100000000,
                                0x200000000,
                            );
                            crate::geometry::lemma_mul_bound(
                                max_i as int,
                                cu as int,
                                0x100000000,
                                0x200000000,
                            );
                        }
                        if ci * max_u > max_i * cu {
                            max_index = k;
                            found = true;
                            max_i = ci;
                            max_u = cu;
                        }
                    }
                }
                k = k + 1;
            }
            proof {
                lemma_best_range(p, secs, removed@, iou, n1 as int);
            }
            if found {
                out.push(self.class_1[max_index]);
                removed.set(max_index, true);
            } else {
                out.push(synthesize(&p));
            }
            i = i + 1;
        }
        self.class_1 = out;
    }

    /// Order each list by ascending distance of the region centres from
    /// `reference`; equally distant regions keep their order.
    pub fn sort_by_distance(&mut self, reference: Point2f)
        requires
            reference.in_range(),
        ensures
            final(self).class_0@ == sort_by_key(old(self).class_0@, distance_key(reference)),
            final(self).class_1@ == sort_by_key(old(self).class_1@, distance_key(reference)),
    {
        self.class_0 = sort_by_distance_from(&self.class_0, reference);
        self.class_1 = sort_by_distance_from(&self.class_1, reference);
    }

    /// Number of regions over both classes.
    pub fn len(&self) -> (r: usize)
        requires
            self.class_0@.len() + self.class_1@.len() <= usize::MAX,
        ensures
            r == self.class_0@.len() + self.class_1@.len(),
    {
        self.class_0.len() + self.class_1.len()
    }
}

fn distance_key_exec(b: &Bbox, p: Point2f) -> (r: i128)
    requires
        p.in_range(),
    ensures
        r == doubled_dist2(*b, p),
{
    let dx = 2 * (b.xmin as i128) + b.width as i128 - 2 * (p.x as i128);
    let dy = 2 * (b.ymin as i128) + b.height as i128 - 2 * (p.y as i128);
    proof {
        crate::geometry::lemma_square_bound(dx as int, 0x4000000000000000);
        crate::geometry::lemma_square_bound(dy as int, 0x4000000000000000);
    }
    dx * dx + dy * dy
}

fn sort_by_distance_from(xs: &Vec<Bbox>, reference: Point2f) -> (r: Vec<Bbox>)
    requires
        reference.in_range(),
    ensures
        r@ == sort_by_key(xs@, distance_key(reference)),
{
    let mut keys: Vec<i128> = Vec::new();
    let mut i: usize = 0;
    while i < xs.len()
        invariant
            reference.in_range(),
            0 <= i <= xs@.len(),
            keys@.len() == i,
            forall|j: int|
                0 <= j < i ==> keys@[j] == (distance_key(reference))(#[trigger] xs@[j]),
        decreases xs@.len() - i,
    {
        keys.push(distance_key_exec(&xs[i], reference));
        i = i + 1;
    }
    sort_keyed(xs, &keys, Ghost(distance_key(reference)))
}

fn synthesize(p: &Bbox) -> (r: Bbox)
    requires
        p.right() <= i32::MAX,
    ensures
        r == synthesized(*p),
{
    let w = p.width as u32;
    let h = p.height as u32;
    assert(w <= 0xffff && h <= 0xffff);
    assert(HEAD_SCALE_X_DEN - HEAD_SCALE_X_NUM == 3);
    let margin: u32 = HEAD_SCALE_X_DEN - HEAD_SCALE_X_NUM;
    let scaled: u32 = w * margin;
    let off = scaled / (2 * HEAD_SCALE_X_DEN);
    assert(off <= w) by (nonlinear_arith)
        requires
            scaled == w * 3,
            off == scaled / 10,
    ;
    let width = (w * HEAD_SCALE_X_NUM) / HEAD_SCALE_X_DEN;
    let height = (h * HEAD_SCALE_Y_NUM) / HEAD_SCALE_Y_DEN;
    Bbox {
        xmin: (p.xmin as i64 + off as i64) as i32,
        ymin: p.ymin,
        width: width as u16,
        height: height as u16,
        confidence: FULL_CONFIDENCE,
        class: 1,
    }
}

// ---------------------------------------------------------------------------
// Decoding of network output rows
// ---------------------------------------------------------------------------

/// One row of the network output, already mapped to frame pixels: a box and
/// one score per class, in millionths.
#[derive(Clone, Copy, Debug, PartialEq, Eq, Structural)]
pub struct Prediction {
    pub xmin: i32,
    pub ymin: i32,
    pub width: u16,
    pub height: u16,
    pub score_0: u32,
    pub score_1: u32,
}

/// The class of a row: the primary class when its score is strictly higher.
pub open spec fn row_class(p: Prediction) -> u8 {
    if p.score_0 > p.score_1 {
        0
    } else {
        1
    }
}

pub open spec fn row_score(p: Prediction) -> u32 {
    if p.score_0 > p.score_1 {
        p.score_0
    } else {
        p.score_1
    }
}

/// The region of a row, clipped to the frame.
pub open spec fn row_region(p: Prediction, w: int, h: int) -> Bbox {
    Bbox {
        xmin: p.xmin,
        ymin: p.ymin,
        width: p.width,
        height: p.height,
        confidence: row_score(p),
        class: row_class(p),
    }.bound_spec(w, h)
}

/// Rows whose score reaches their class's threshold, as regions split by
/// class, in row order.
pub open spec fn decoded(preds: Seq<Prediction>, conf_0: u32, conf_1: u32, w: int, h: int) -> (
    Seq<Bbox>,
    Seq<Bbox>,
)
    decreases preds.len(),
{
    if preds.len() == 0 {
        (Seq::empty(), Seq::empty())
    } else {
        let prev = decoded(preds.drop_last(), conf_0, conf_1, w, h);
        let p = preds.last();
        let threshold = if row_class(p) == 0 {
            conf_0
        } else {
            conf_1
        };
        if row_score(p) < threshold {
            prev
        } else if row_class(p) == 0 {
            (prev.0.push(row_region(p, w, h)), prev.1)
        } else {
            (prev.0, prev.1.push(row_region(p, w, h)))
        }
    }
}

/// The regions of one frame: rows below their class's confidence threshold
/// are dropped, the rest clipped to the frame and split by class, and each
/// class list is suppressed with `iou`.
pub fn detections_from(
    preds: &Vec<Prediction>,
    conf_primary: u32,
    conf_secondary: u32,
    iou: Ratio,
    frame_width: u32,
    frame_height: u32,
) -> (r: Bboxes)
    ensures
        r.class_0@ == suppressed(
            decoded(preds@, conf_primary, conf_secondary, frame_width as int, frame_height as int).0,
            iou,
        ),
        r.class_1@ == suppressed(
            decoded(preds@, conf_primary, conf_secondary, frame_width as int, frame_height as int).1,
            iou,
        ),
{
    let ghost w = frame_width as int;
    let ghost h = frame_height as int;
    let mut out = Bboxes::new();
    let mut i: usize = 0;
    proof {
        assert(out.class_0@ =~= decoded(preds@.take(0), conf_primary, conf_secondary, w, h).0);
        assert(out.class_1@ =~= decoded(preds@.take(0), conf_primary, conf_secondary, w, h).1);
    }
    while i < preds.len()
        invariant
            0 <= i <= preds@.len(),
            w == frame_width,
            h == frame_height,
            (out.class_0@, out.class_1@) == decoded(
                preds@.take(i as int),
                conf_primary,
                conf_secondary,
                w,
                h,
            ),
        decreases preds@.len() - i,
    {
        let p = preds[i];
        let (class, score) = if p.score_0 > p.score_1 {
            (0u8, p.score_0)
        } else {
            (1u8, p.score_1)
        };
        let threshold = if class == 0 {
            conf_primary
        } else {
            conf_secondary
        };
        proof {
            assert(preds@.take(i as int + 1).drop_last() =~= preds@.take(i as int));
        }
        if score >= threshold {
            let region = Bbox::new(p.xmin, p.ymin, p.width, p.height, score, class).bound(
                frame_width,
                frame_height,
            );
            out.push(region, class as usize);
        }
        i = i + 1;
    }
    proof {
        assert(preds@.take(i as int) =~= preds@);
    }
    non_max_suppression(&mut out.class_0, iou);
    non_max_suppression(&mut out.class_1, iou);
    out
}

} // verus!
