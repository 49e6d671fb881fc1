use vstd::prelude::*;

use crate::measurement::{Measurement, WindError, FULL_TURN};

verus! {

/// The points in the order the bucketing walk visits them, newest first.
///
/// A history whose first point is older than its last is read from the
/// end; any other history is read as given.
pub open spec fn newest_first(pts: Seq<Measurement>) -> Seq<Measurement> {
    if pts.len() > 0 && pts[0].ts < pts.last().ts {
        pts.reverse()
    } else {
        pts
    }
}

/// State of the walk after visiting `pts`: the closed buckets in visiting
/// order, the open bucket, and the lower edge of the open window.
///
/// A point strictly above the lower edge joins the open bucket. Any other
/// point closes the open bucket (if it holds anything), starts a new one
/// and moves the lower edge down by one interval.
pub open spec fn walk(pts: Seq<Measurement>, now: int, interval: int) -> (
    Seq<Seq<Measurement>>,
    Seq<Measurement>,
    int,
)
    decreases pts.len(),
{
    if pts.len() == 0 {
        (seq![], seq![], now - interval)
    } else {
        let (closed, open, lower) = walk(pts.drop_last(), now, interval);
        let p = pts.last();
        if p.ts > lower {
            (closed, open.push(p), lower)
        } else if open.len() == 0 {
            (closed, seq![p], lower - interval)
        } else {
            (closed.push(open), seq![p], lower - interval)
        }
    }
}

/// The buckets that the walk over `pts` forms, in visiting order.
pub open spec fn buckets(pts: Seq<Measurement>, now: int, interval: int) -> Seq<Seq<Measurement>> {
    let (closed, open, _) = walk(pts, now, interval);
    if open.len() == 0 {
        closed
    } else {
        closed.push(open)
    }
}

/// Sum of the speeds in `b`.
pub open spec fn sum_vel(b: Seq<Measurement>) -> int
    decreases b.len(),
{
    if b.len() == 0 {
        0
    } else {
        sum_vel(b.drop_last()) + b.last().vel
    }
}

/// Sum of the directions in `b`.
pub open spec fn sum_direction(b: Seq<Measurement>) -> int
    decreases b.len(),
{
    if b.len() == 0 {
        0
    } else {
        sum_direction(b.drop_last()) + b.last().direction
    }
}

/// The one measurement that stands for a non-empty bucket: the time of its
/// first point, and the truncated means of its speeds and directions.
pub open spec fn mean_of(b: Seq<Measurement>) -> Measurement {
    Measurement {
        ts: b[0].ts,
        vel: (sum_vel(b) / b.len() as int) as u64,
        direction: (sum_direction(b) / b.len() as int) as u16,
    }
}

/// The aggregated history: one measurement per bucket, oldest bucket first.
pub open spec fn aggregated(pts: Seq<Measurement>, now: int, interval: int) -> Seq<Measurement> {
    buckets(newest_first(pts), now, interval).map_values(|b: Seq<Measurement>| mean_of(b)).reverse()
}

/// The measurement that closes a bucket whose first point is `head`, from
/// the running sums of its `count` points.
fn close_bucket(head: Measurement, sum_vel: u128, sum_direction: u128, count: u64) -> (m:
    Measurement)
    requires
        count > 0,
        sum_vel <= count * u64::MAX,
        sum_direction <= count * u16::MAX,
    ensures
        m.ts == head.ts,
        m.vel == sum_vel as int / count as int,
        m.direction == sum_direction as int / count as int,
{
    proof {
        assert(sum_vel as int / count as int <= u64::MAX) by (nonlinear_arith)
            requires
                count > 0,
                sum_vel <= count * u64::MAX,
        ;
        assert(sum_direction as int / count as int <= u16::MAX) by (nonlinear_arith)
            requires
                count > 0,
                sum_direction <= count * u16::MAX,
        ;
    }
    Measurement {
        ts: head.ts,
        vel: (sum_vel / count as u128) as u64,
        direction: (sum_direction / count as u128) as u16,
    }
}

/// A copy of `v` in reverse order.
fn reversed(v: &Vec<Measurement>) -> (r: Vec<Measurement>)
    ensures
        r@ == v@.reverse(),
{
    let mut r: Vec<Measurement> = Vec::new();
    let mut i: usize = v.len();
    while i > 0
        invariant
            i <= v.len(),
            r@.len() == v.len() - i,
            forall|j: int| 0 <= j < r@.len() ==> r@[j] == v@[v.len() - 1 - j],
        decreases i,
    {
        i = i - 1;
        r.push(v[i]);
    }
    assert(r@ =~= v@.reverse());
    r
}

/// Averages a measurement history into buckets `interval` microseconds wide,
/// counted down from `now`; the result holds one measurement per bucket,
/// oldest bucket first. An empty history yields `NoDataAvailable`.
pub fn bucket(measures: &Vec<Measurement>, now: u64, interval: u64) -> (r: Result<
    Vec<Measurement>,
    WindError,
>)
    requires
        interval > 0,
    ensures
        measures@.len() == 0 ==> r == Err::<Vec<Measurement>, WindError>(WindError::NoDataAvailable),
        measures@.len() > 0 ==> (r matches Ok(v) && v@ == aggregated(
            measures@,
            now as int,
            interval as int,
        ) && v@.len() > 0),
{
    let n = measures.len();
    if n == 0 {
        return Err(WindError::NoDataAvailable);
    }
    let from_end = measures[0].ts < measures[n - 1].ts;
    let ghost pts = newest_first(measures@);
    let ghost span = interval as int;
    let mut closed: Vec<Measurement> = Vec::new();
    let mut lower: i128 = now as i128 - interval as i128;
    let mut head: Measurement = measures[0];
    let mut sum_v: u128 = 0;
    let mut sum_d: u128 = 0;
    let mut count: u64 = 0;
    let mut k: usize = 0;
    while k < n
        invariant
            k <= n,
            n == measures@.len(),
            n > 0,
            span == interval,
            interval > 0,
            pts == newest_first(measures@),
            pts.len() == n,
            from_end == (measures@[0].ts < measures@[n - 1].ts),
            closed@ == walk(pts.take(k as int), now as int, span).0.map_values(
                |b: Seq<Measurement>| mean_of(b),
            ),
            count == walk(pts.take(k as int), now as int, span).1.len(),
            count > 0 ==> head == walk(pts.take(k as int), now as int, span).1[0],
            sum_v == sum_vel(walk(pts.take(k as int), now as int, span).1),
            sum_d == sum_direction(walk(pts.take(k as int), now as int, span).1),
            lower == walk(pts.take(k as int), now as int, span).2,
            sum_v <= count * u64::MAX,
            sum_d <= count * u16::MAX,
            count <= k,
            k > 0 ==> count > 0,
            -span <= lower <= now,
        decreases n - k,
    {
        let p = if from_end {
            measures[n - 1 - k]
        } else {
            measures[k]
        };
        let ghost before = pts.take(k as int);
        let ghost after = pts.take(k as int + 1);
        proof {
            assert(p == pts[k as int]);
            assert(after.drop_last() =~= before);
            assert(after.last() == p);
        }
        if (p.ts as i128) > lower {
            if count == 0 {
                head = p;
            }
            sum_v = sum_v + p.vel as u128;
            sum_d = sum_d + p.direction as u128;
            count = count + 1;
            proof {
                let open = walk(before, now as int, span).1;
                assert(open.push(p).drop_last() =~= open);
            }
        } else {
            if count > 0 {
                let m = close_bucket(head, sum_v, sum_d, count);
                proof {
                    let open = walk(before, now as int, span).1;
                    assert(m == mean_of(open));
                    assert(walk(before, now as int, span).0.push(open).map_values(
                        |b: Seq<Measurement>| mean_of(b),
                    ) =~= closed@.push(m));
                }
                closed.push(m);
            }
            head = p;
            sum_v = p.vel as u128;
            sum_d = p.direction as u128;
            count = 1;
            lower = lower - interval as i128;
            proof {
                assert(seq![p].drop_last() =~= Seq::<Measurement>::empty());
                assert(sum_vel(seq![p].drop_last()) == 0);
                assert(sum_direction(seq![p].drop_last()) == 0);
            }
        }
        k = k + 1;
    }
    let last = close_bucket(head, sum_v, sum_d, count);
    proof {
        let w = walk(pts, now as int, span);
        assert(pts.take(n as int) =~= pts);
        assert(last == mean_of(w.1));
        assert(w.0.push(w.1).map_values(|b: Seq<Measurement>| mean_of(b)) =~= closed@.push(last));
    }
    closed.push(last);
    Ok(reversed(&closed))
}

/// `pts` is sorted oldest first.
pub open spec fn ascending(pts: Seq<Measurement>) -> bool {
    forall|i: int, j: int| 0 <= i < j < pts.len() ==> pts[i].ts <= pts[j].ts
}

/// `pts` is sorted newest first.
pub open spec fn descending(pts: Seq<Measurement>) -> bool {
    forall|i: int, j: int| 0 <= i < j < pts.len() ==> pts[i].ts >= pts[j].ts
}

/// A sorted history, in either order, is walked newest first.
proof fn lemma_newest_first_descending(pts: Seq<Measurement>)
    requires
        ascending(pts) || descending(pts),
    ensures
        descending(newest_first(pts)),
{
    if pts.len() > 0 && pts[0].ts < pts.last().ts {
        if descending(pts) {
            assert(pts[0].ts >= pts[pts.len() - 1].ts);
        }
        let r = newest_first(pts);
        assert forall|i: int, j: int| 0 <= i < j < r.len() implies r[i].ts >= r[j].ts by {
            assert(r[i] == pts[pts.len() - 1 - i]);
            assert(r[j] == pts[pts.len() - 1 - j]);
        }
    } else if ascending(pts) && pts.len() > 0 {
        assert forall|i: int, j: int| 0 <= i < j < pts.len() implies pts[i].ts >= pts[j].ts by {
            assert(pts[0].ts <= pts[i].ts);
            assert(pts[j].ts <= pts[pts.len() - 1].ts);
        }
    }
}

/// Over a history walked newest first, every bucket is non-empty and the
/// first points of the buckets grow older in visiting order.
proof fn lemma_walk_heads(pts: Seq<Measurement>, now: int, interval: int)
    requires
        descending(pts),
    ensures
        ({
            let (closed, open, _) = walk(pts, now, interval);
            &&& pts.len() > 0 ==> open.len() > 0
            &&& forall|i: int| 0 <= i < closed.len() ==> #[trigger] closed[i].len() > 0
            &&& forall|i: int, j: int|
                0 <= i < j < closed.len() ==> closed[i][0].ts >= closed[j][0].ts
            &&& open.len() > 0 ==> forall|i: int|
                0 <= i < closed.len() ==> #[trigger] closed[i][0].ts >= open[0].ts
            &&& pts.len() > 0 ==> open[0].ts >= pts.last().ts
            &&& pts.len() > 0 ==> forall|i: int|
                0 <= i < closed.len() ==> #[trigger] closed[i][0].ts >= pts.last().ts
        }),
    decreases pts.len(),
{
    if pts.len() > 0 {
        let q = pts.drop_last();
        assert(descending(q));
        lemma_walk_heads(q, now, interval);
        if q.len() > 0 {
            assert(q.last().ts >= pts.last().ts);
        }
    }
}

/// Whatever the order of a sorted, non-empty history, aggregation gives at
/// least one bucket, and the buckets come out oldest first.
pub proof fn lemma_aggregated_chronological(pts: Seq<Measurement>, now: int, interval: int)
    requires
        pts.len() > 0,
        ascending(pts) || descending(pts),
    ensures
        aggregated(pts, now, interval).len() > 0,
        forall|i: int, j: int|
            0 <= i <= j < aggregated(pts, now, interval).len() ==> aggregated(
                pts,
                now,
                interval,
            )[i].ts <= aggregated(pts, now, interval)[j].ts,
{
    let w = newest_first(pts);
    lemma_newest_first_descending(pts);
    assert(w.len() == pts.len());
    lemma_walk_heads(w, now, interval);
    let bs = buckets(w, now, interval);
    let (closed, open, _) = walk(w, now, interval);
    assert(bs == closed.push(open));
    assert forall|i: int, j: int| 0 <= i < j < bs.len() implies bs[i].len() > 0 && bs[i][0].ts
        >= bs[j][0].ts by {
        if j == closed.len() {
            assert(closed[i][0].ts >= open[0].ts);
        }
    }
    let out = aggregated(pts, now, interval);
    assert(out.len() == bs.len());
    assert forall|i: int, j: int| 0 <= i <= j < out.len() implies out[i].ts <= out[j].ts by {
        let n = bs.len();
        assert(out[i] == mean_of(bs[n - 1 - i]));
        assert(out[j] == mean_of(bs[n - 1 - j]));
    }
}

/// Every measurement of `pts` is well formed.
pub open spec fn all_wf(pts: Seq<Measurement>) -> bool {
    forall|i: int| 0 <= i < pts.len() ==> (#[trigger] pts[i]).wf()
}

/// The walk puts only points of the history in its buckets, and closes no
/// empty bucket.
proof fn lemma_walk_wf(pts: Seq<Measurement>, now: int, interval: int)
    requires
        all_wf(pts),
    ensures
        ({
            let (closed, open, _) = walk(pts, now, interval);
            &&& all_wf(open)
            &&& forall|i: int| 0 <= i < closed.len() ==> all_wf(#[trigger] closed[i])
            &&& forall|i: int| 0 <= i < closed.len() ==> (#[trigger] closed[i]).len() > 0
        }),
    decreases pts.len(),
{
    if pts.len() > 0 {
        let q = pts.drop_last();
        assert(all_wf(q));
        lemma_walk_wf(q, now, interval);
        let (closed, open, _) = walk(q, now, interval);
        assert(pts.last() == pts[pts.len() - 1]);
        assert(all_wf(open.push(pts.last())));
        assert(all_wf(seq![pts.last()]));
    }
}

/// Directions of well-formed points sum to less than a full turn each.
proof fn lemma_sum_direction_bound(b: Seq<Measurement>)
    requires
        all_wf(b),
    ensures
        0 <= sum_direction(b) <= b.len() * (FULL_TURN - 1),
    decreases b.len(),
{
    if b.len() > 0 {
        let q = b.drop_last();
        assert(all_wf(q));
        lemma_sum_direction_bound(q);
        assert(b.last() == b[b.len() - 1]);
    }
}

/// Aggregating well-formed measurements gives well-formed measurements: the
/// mean of directions in `[0, 360)` stays in `[0, 360)`.
pub proof fn lemma_aggregated_well_formed(pts: Seq<Measurement>, now: int, interval: int)
    requires
        all_wf(pts),
    ensures
        all_wf(aggregated(pts, now, interval)),
{
    let w = newest_first(pts);
    assert(all_wf(w)) by {
        if pts.len() > 0 && pts[0].ts < pts.last().ts {
            assert forall|i: int| 0 <= i < w.len() implies (#[trigger] w[i]).wf() by {
                assert(w[i] == pts[pts.len() - 1 - i]);
            }
        }
    }
    lemma_walk_wf(w, now, interval);
    let bs = buckets(w, now, interval);
    let out = aggregated(pts, now, interval);
    assert forall|i: int| 0 <= i < out.len() implies (#[trigger] out[i]).wf() by {
        let b = bs[bs.len() - 1 - i];
        assert(out[i] == mean_of(b));
        assert(all_wf(b));
        assert(b.len() > 0);
        lemma_sum_direction_bound(b);
        let n = b.len() as int;
        let sd = sum_direction(b);
        assert(sd / n <= FULL_TURN - 1) by (nonlinear_arith)
            requires
                n > 0,
                0 <= sd <= n * (FULL_TURN - 1),
        ;
        assert(0 <= sd / n) by (nonlinear_arith)
            requires
                n > 0,
                0 <= sd,
        ;
    }
}

} // verus!
