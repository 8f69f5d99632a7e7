//! Integer logic of the research backtests: grid and window bookkeeping.
use vstd::prelude::*;

verus! {

/// The number of bars that every series of the universe has: the shortest
/// length, or 0 for an empty universe.
pub fn aligned_len(lengths: &[usize]) -> (n: usize)
    ensures
        lengths@.len() == 0 ==> n == 0,
        lengths@.len() > 0 ==> lengths@.contains(n),
        forall|i: int| 0 <= i < lengths@.len() ==> n <= lengths@[i],
{
    if lengths.len() == 0 {
        return 0;
    }
    let mut best: usize = lengths[0];
    let mut i: usize = 1;
    assert(lengths@[0] == best);
    while i < lengths.len()
        invariant
            1 <= i <= lengths@.len(),
            exists|j: int| 0 <= j < i && lengths@[j] == best,
            forall|j: int| 0 <= j < i ==> best <= lengths@[j],
        decreases lengths@.len() - i,
    {
        if lengths[i] < best {
            best = lengths[i];
        }
        i = i + 1;
    }
    let ghost k = choose|j: int| 0 <= j < lengths@.len() && lengths@[j] == best;
    assert(lengths@[k] == best);
    best
}

/// `s` is in strictly increasing order.
pub open spec fn spec_strictly_increasing(s: Seq<usize>) -> bool {
    forall|i: int, j: int| 0 <= i < j < s.len() ==> s[i] < s[j]
}

/// `s` is in non-decreasing order.
pub open spec fn spec_sorted_usize(s: Seq<usize>) -> bool {
    forall|i: int, j: int| 0 <= i <= j < s.len() ==> s[i] <= s[j]
}

/// Sorts `v` in non-decreasing order.
///
/// Calls `<[usize]>::sort`; the contract states what its documentation
/// states: afterwards the slice is sorted and holds the same elements as
/// before.
#[verifier::external_body]
fn sort_values(v: &mut Vec<usize>)
    ensures
        spec_sorted_usize(final(v)@),
        final(v)@.to_multiset() == old(v)@.to_multiset(),
{
    v.sort();
}

/// The distinct values of `values`, in increasing order.
pub fn unique_sorted_usize(values: Vec<usize>) -> (out: Vec<usize>)
    ensures
        spec_strictly_increasing(out@),
        forall|x: usize| out@.contains(x) <==> values@.contains(x),
{
    let mut values = values;
    let ghost input = values@;
    sort_values(&mut values);
    proof {
        input.to_multiset_ensures();
        values@.to_multiset_ensures();
    }
    let mut out: Vec<usize> = Vec::new();
    let mut i: usize = 0;
    while i < values.len()
        invariant
            0 <= i <= values@.len(),
            spec_sorted_usize(values@),
            spec_strictly_increasing(out@),
            forall|x: usize| out@.contains(x) <==> values@.subrange(0, i as int).contains(x),
            i > 0 ==> out@.len() > 0 && out@.last() == values@[i - 1],
            out@.len() <= i,
        decreases values@.len() - i,
    {
        let v: usize = values[i];
        let ghost before = out@;
        proof {
            if i > 0 {
                assert(values@[i - 1] <= values@[i as int]);
            }
        }
        if out.len() == 0 || out[out.len() - 1] != v {
            out.push(v);
        }
        proof {
            let pre = values@.subrange(0, i as int);
            let post = values@.subrange(0, i as int + 1);
            assert(post =~= pre.push(v));
            assert(out@ == before || out@ == before.push(v));
            assert(out@.last() == v);
            if out@.len() > before.len() {
                assert forall|a: int, b: int| 0 <= a < b < out@.len() implies out@[a] < out@[b] by {
                    if b == out@.len() - 1 {
                        assert(out@[b] == v);
                        assert(out@[a] == before[a]);
                        assert(before.len() > 0);
                        assert(i > 0);
                        assert(before[before.len() - 1] == values@[i - 1]);
                        assert(before[before.len() - 1] != v);
                        if a < before.len() - 1 {
                            assert(before[a] < before[before.len() - 1]);
                        }
                    } else {
                        assert(out@[a] == before[a]);
                        assert(out@[b] == before[b]);
                    }
                }
            }
            assert forall|x: usize| out@.contains(x) <==> post.contains(x) by {
                if x == v {
                    assert(post[i as int] == v);
                    assert(out@[out@.len() - 1] == v);
                } else {
                    if post.contains(x) {
                        let k: int = choose|k: int| 0 <= k < post.len() && post[k] == x;
                        assert(pre[k] == x);
                        assert(pre.contains(x));
                        assert(before.contains(x));
                        let j: int = choose|j: int| 0 <= j < before.len() && before[j] == x;
                        assert(out@[j] == x);
                    }
                    if out@.contains(x) {
                        let k: int = choose|k: int| 0 <= k < out@.len() && out@[k] == x;
                        assert(before[k] == x);
                        assert(before.contains(x));
                        assert(pre.contains(x));
                        let j: int = choose|j: int| 0 <= j < pre.len() && pre[j] == x;
                        assert(post[j] == x);
                    }
                }
            }
        }
        i = i + 1;
    }
    proof {
        assert(values@.subrange(0, values@.len() as int) =~= values@);
        assert forall|x: usize| values@.contains(x) <==> input.contains(x) by {
            if values@.contains(x) {
                assert(values@.to_multiset().count(x) > 0);
            }
            if input.contains(x) {
                assert(input.to_multiset().count(x) > 0);
            }
        }
    }
    out
}

/// Two strictly increasing sequences with the same elements are equal: the
/// result of `unique_sorted_usize` depends only on which values occur, so
/// applying it twice gives what applying it once gives.
pub proof fn lemma_unique_sorted_determined(a: Seq<usize>, b: Seq<usize>)
    requires
        spec_strictly_increasing(a),
        spec_strictly_increasing(b),
        forall|x: usize| a.contains(x) <==> b.contains(x),
    ensures
        a == b,
    decreases a.len() + b.len(),
{
    if a.len() == 0 {
        if b.len() > 0 {
            assert(b.contains(b[0]));
        }
        assert(a =~= b);
    } else if b.len() == 0 {
        assert(a.contains(a[0]));
    } else {
        let la: usize = a.last();
        let lb: usize = b.last();
        assert(a.contains(la));
        assert(b.contains(lb));
        let ia: int = choose|i: int| 0 <= i < a.len() && a[i] == lb;
        let ib: int = choose|i: int| 0 <= i < b.len() && b[i] == la;
        assert(la == lb) by {
            if la < lb {
                assert(b[ib] == la && ib < b.len() - 1);
            }
            if lb < la {
                assert(a[ia] == lb && ia < a.len() - 1);
            }
        }
        let a2 = a.drop_last();
        let b2 = b.drop_last();
        assert forall|x: usize| a2.contains(x) <==> b2.contains(x) by {
            if a2.contains(x) {
                let k: int = choose|k: int| 0 <= k < a2.len() && a2[k] == x;
                assert(a.contains(x));
                let j: int = choose|j: int| 0 <= j < b.len() && b[j] == x;
                assert(x < la);
                if j == b.len() - 1 {
                    assert(false);
                }
                assert(b2[j] == x);
            }
            if b2.contains(x) {
                let k: int = choose|k: int| 0 <= k < b2.len() && b2[k] == x;
                assert(b.contains(x));
                let j: int = choose|j: int| 0 <= j < a.len() && a[j] == x;
                assert(x < lb);
                if j == a.len() - 1 {
                    assert(false);
                }
                assert(a2[j] == x);
            }
        }
        lemma_unique_sorted_determined(a2, b2);
        assert(a =~= a2.push(la));
        assert(b =~= b2.push(lb));
    }
}

/// The short moving-average windows probed around `short_window` by the
/// parameter-cube robustness analysis: two below (but not under 2), the
/// window itself and two above.
pub open spec fn spec_short_candidates(short_window: usize) -> Seq<usize> {
    let below: usize = if short_window >= 2 { (short_window - 2) as usize } else { 0usize };
    seq![if below < 2 { 2usize } else { below }, short_window, (short_window + 2) as usize]
}

/// The long moving-average windows probed around `long_window`: twenty below
/// (but above `short_window`), the window itself and twenty above.
pub open spec fn spec_long_candidates(short_window: usize, long_window: usize) -> Seq<usize> {
    let below: usize = if long_window >= 20 { (long_window - 20) as usize } else { 0usize };
    let floor: usize = (short_window + 1) as usize;
    seq![if below < floor { floor } else { below }, long_window, (long_window + 20) as usize]
}

/// `s` is in strictly increasing lexicographic order.
pub open spec fn spec_pairs_increasing(s: Seq<(usize, usize)>) -> bool {
    forall|i: int, j: int|
        0 <= i < j < s.len() ==> s[i].0 < s[j].0 || (s[i].0 == s[j].0 && s[i].1 < s[j].1)
}

/// The pairs `(a, b)` for `b` in `longs`, in order, that have `a < b`.
pub open spec fn spec_row(a: usize, longs: Seq<usize>) -> Seq<(usize, usize)>
    decreases longs.len(),
{
    if longs.len() == 0 {
        Seq::empty()
    } else {
        let prev = spec_row(a, longs.drop_last());
        if a < longs.last() {
            prev.push((a, longs.last()))
        } else {
            prev
        }
    }
}

/// The (short, long) window pairs of a grid search, in the order a search
/// visits them: for each short window in turn, each long window in turn,
/// keeping only the pairs whose short window is below the long one.
pub open spec fn spec_grid(shorts: Seq<usize>, longs: Seq<usize>) -> Seq<(usize, usize)>
    decreases shorts.len(),
{
    if shorts.len() == 0 {
        Seq::empty()
    } else {
        spec_grid(shorts.drop_last(), longs) + spec_row(shorts.last(), longs)
    }
}

/// The (short, long) moving-average window pairs that a grid search over
/// `shorts` and `longs` evaluates, in visiting order: every short window
/// with every long window above it.
pub fn window_grid(shorts: &[usize], longs: &[usize]) -> (out: Vec<(usize, usize)>)
    ensures
        out@ == spec_grid(shorts@, longs@),
{
    let mut out: Vec<(usize, usize)> = Vec::new();
    let mut i: usize = 0;
    while i < shorts.len()
        invariant
            0 <= i <= shorts@.len(),
            out@ == spec_grid(shorts@.take(i as int), longs@),
        decreases shorts@.len() - i,
    {
        let a: usize = shorts[i];
        let ghost before = out@;
        let mut j: usize = 0;
        while j < longs.len()
            invariant
                0 <= i < shorts@.len(),
                a == shorts@[i as int],
                0 <= j <= longs@.len(),
                before == spec_grid(shorts@.take(i as int), longs@),
                out@ == before + spec_row(a, longs@.take(j as int)),
            decreases longs@.len() - j,
        {
            let b: usize = longs[j];
            proof {
                assert(longs@.take(j as int + 1).drop_last() =~= longs@.take(j as int));
            }
            if a < b {
                out.push((a, b));
                proof {
                    assert(out@ =~= before + spec_row(a, longs@.take(j as int + 1)));
                }
            }
            j = j + 1;
        }
        proof {
            assert(longs@.take(longs@.len() as int) =~= longs@);
            assert(shorts@.take(i as int + 1).drop_last() =~= shorts@.take(i as int));
        }
        i = i + 1;
    }
    proof {
        assert(shorts@.take(shorts@.len() as int) =~= shorts@);
    }
    out
}

/// A row over increasing long windows lists, in increasing order, exactly
/// the long windows above `a`.
pub proof fn lemma_row_of_increasing(a: usize, longs: Seq<usize>)
    requires
        spec_strictly_increasing(longs),
    ensures
        forall|k: int| 0 <= k < spec_row(a, longs).len() ==> (#[trigger] spec_row(a, longs)[k]).0 == a,
        forall|k: int, m: int|
            0 <= k < m < spec_row(a, longs).len() ==> spec_row(a, longs)[k].1 < spec_row(a, longs)[m].1,
        forall|x: usize, y: usize| spec_row(a, longs).contains((x, y)) <==> x == a && longs.contains(y) && a < y,
    decreases longs.len(),
{
    if longs.len() > 0 {
        let prev = longs.drop_last();
        let l = longs.last();
        lemma_row_of_increasing(a, prev);
        let r = spec_row(a, prev);
        assert forall|x: usize, y: usize| spec_row(a, longs).contains((x, y)) <==> x == a && longs.contains(y) && a < y by {
            if spec_row(a, longs).contains((x, y)) {
                let k: int = choose|k: int| 0 <= k < spec_row(a, longs).len() && spec_row(a, longs)[k] == (x, y);
                if k < r.len() {
                    assert(r[k] == (x, y));
                    assert(r.contains((x, y)));
                    let w: int = choose|w: int| 0 <= w < prev.len() && prev[w] == y;
                    assert(longs[w] == y);
                } else {
                    assert(longs[longs.len() - 1] == y);
                }
            }
            if x == a && longs.contains(y) && a < y {
                let w: int = choose|w: int| 0 <= w < longs.len() && longs[w] == y;
                if w < longs.len() - 1 {
                    assert(prev[w] == y);
                    assert(r.contains((x, y)));
                    let k: int = choose|k: int| 0 <= k < r.len() && r[k] == (x, y);
                    assert(spec_row(a, longs)[k] == (x, y));
                } else {
                    assert(spec_row(a, longs)[spec_row(a, longs).len() - 1] == (x, y));
                }
            }
        }
        if a < l {
            assert forall|k: int, m: int|
                0 <= k < m < spec_row(a, longs).len() implies spec_row(a, longs)[k].1 < spec_row(a, longs)[m].1 by {
                if m == spec_row(a, longs).len() - 1 {
                    assert(r.contains(r[k]));
                    let w: int = choose|w: int| 0 <= w < prev.len() && prev[w] == r[k].1;
                    assert(longs[w] < longs[longs.len() - 1]);
                } else {
                    assert(spec_row(a, longs)[k] == r[k]);
                    assert(spec_row(a, longs)[m] == r[m]);
                }
            }
        }
    }
}

/// A grid over increasing short and long windows lists, in increasing
/// lexicographic order, exactly the pairs of a short window below a long
/// one.
pub proof fn lemma_grid_of_increasing(shorts: Seq<usize>, longs: Seq<usize>)
    requires
        spec_strictly_increasing(shorts),
        spec_strictly_increasing(longs),
    ensures
        spec_pairs_increasing(spec_grid(shorts, longs)),
        forall|x: usize, y: usize|
            spec_grid(shorts, longs).contains((x, y)) <==> shorts.contains(x) && longs.contains(y) && x < y,
    decreases shorts.len(),
{
    if shorts.len() > 0 {
        let prev = shorts.drop_last();
        let a = shorts.last();
        lemma_grid_of_increasing(prev, longs);
        lemma_row_of_increasing(a, longs);
        let g = spec_grid(prev, longs);
        let r = spec_row(a, longs);
        let all = spec_grid(shorts, longs);
        assert(all == g + r);
        assert forall|k: int| 0 <= k < g.len() implies (#[trigger] g[k]).0 < a by {
            assert(g.contains(g[k]));
            let w: int = choose|w: int| 0 <= w < prev.len() && prev[w] == g[k].0;
            assert(shorts[w] < shorts[shorts.len() - 1]);
        }
        assert forall|p: int, q: int| 0 <= p < q < all.len() implies all[p].0 < all[q].0 || (all[p].0
            == all[q].0 && all[p].1 < all[q].1) by {
            if q < g.len() {
                assert(all[p] == g[p]);
                assert(all[q] == g[q]);
            } else if p < g.len() {
                assert(all[p] == g[p]);
                assert(all[q] == r[q - g.len()]);
                assert(r[q - g.len()].0 == a);
            } else {
                assert(all[p] == r[p - g.len()]);
                assert(all[q] == r[q - g.len()]);
                assert(r[p - g.len()].0 == a);
                assert(r[q - g.len()].0 == a);
            }
        }
        assert forall|x: usize, y: usize| all.contains((x, y)) <==> shorts.contains(x) && longs.contains(y) && x < y by {
            if all.contains((x, y)) {
                let k: int = choose|k: int| 0 <= k < all.len() && all[k] == (x, y);
                if k < g.len() {
                    assert(g[k] == (x, y));
                    assert(g.contains((x, y)));
                    let w: int = choose|w: int| 0 <= w < prev.len() && prev[w] == x;
                    assert(shorts[w] == x);
                } else {
                    assert(r[k - g.len()] == (x, y));
                    assert(r.contains((x, y)));
                    assert(shorts[shorts.len() - 1] == x);
                }
            }
            if shorts.contains(x) && longs.contains(y) && x < y {
                let w: int = choose|w: int| 0 <= w < shorts.len() && shorts[w] == x;
                if w < shorts.len() - 1 {
                    assert(prev[w] == x);
                    assert(g.contains((x, y)));
                    let k: int = choose|k: int| 0 <= k < g.len() && g[k] == (x, y);
                    assert(all[k] == (x, y));
                } else {
                    assert(r.contains((x, y)));
                    let k: int = choose|k: int| 0 <= k < r.len() && r[k] == (x, y);
                    assert(all[g.len() + k] == (x, y));
                }
            }
        }
    }
}

/// The (short, long) window pairs that the parameter-cube robustness
/// analysis evaluates around a best configuration, in the order it visits
/// them: every probed short window with every probed long window above it,
/// each pair once, by increasing short window and then increasing long
/// window.
pub fn cube_window_pairs(short_window: usize, long_window: usize) -> (out: Vec<(usize, usize)>)
    requires
        short_window + 2 <= usize::MAX,
        long_window + 20 <= usize::MAX,
    ensures
        spec_pairs_increasing(out@),
        forall|a: usize, b: usize|
            out@.contains((a, b)) <==> spec_short_candidates(short_window).contains(a)
                && spec_long_candidates(short_window, long_window).contains(b) && a < b,
{
    let short_below: usize = short_window.saturating_sub(2);
    let short_low: usize = if short_below < 2 { 2 } else { short_below };
    let shorts = unique_sorted_usize(vec![short_low, short_window, short_window + 2]);
    let long_below: usize = long_window.saturating_sub(20);
    let long_floor: usize = short_window + 1;
    let long_low: usize = if long_below < long_floor { long_floor } else { long_below };
    let longs = unique_sorted_usize(vec![long_low, long_window, long_window + 20]);
    proof {
        assert(spec_short_candidates(short_window) =~= seq![short_low, short_window, (short_window + 2) as usize]);
        assert(spec_long_candidates(short_window, long_window) =~= seq![long_low, long_window, (long_window + 20) as usize]);
        lemma_grid_of_increasing(shorts@, longs@);
    }
    window_grid(shorts.as_slice(), longs.as_slice())
}

/// The bounds of one walk-forward validation window: a training range
/// followed directly by a test range, as half-open bar indices.
#[derive(Clone, Copy, Debug, PartialEq, Eq)]
pub struct WalkForwardWindow {
    /// 1-based number of the window.
    pub window: usize,
    /// First training bar.
    pub train_start: usize,
    /// One past the last training bar.
    pub train_end: usize,
    /// First test bar (the end of the training range).
    pub test_start: usize,
    /// One past the last test bar.
    pub test_end: usize,
}

/// How many windows of `train_window + test_window` bars, started every
/// `step` bars from bar 0, fit within `n` bars.
pub open spec fn spec_window_count(n: nat, train_window: nat, test_window: nat, step: nat) -> nat {
    if train_window + test_window > n || step == 0 {
        0
    } else {
        ((n - train_window - test_window) as nat / step + 1) as nat
    }
}

/// `w` is the `k`-th (0-based) window of the schedule.
pub open spec fn spec_is_window(w: WalkForwardWindow, k: nat, train_window: nat, test_window: nat, step: nat) -> bool {
    &&& w.window == k + 1
    &&& w.train_start == k * step
    &&& w.train_end == k * step + train_window
    &&& w.test_start == k * step + train_window
    &&& w.test_end == k * step + train_window + test_window
}

/// The walk-forward schedule over `n` bars: window `k` trains on
/// `[k * step, k * step + train_window)` and tests on the following
/// `test_window` bars, for every `k` whose test range ends within the data.
pub fn walk_forward_windows(n: usize, train_window: usize, test_window: usize, step: usize) -> (out: Vec<WalkForwardWindow>)
    requires
        step > 0 || train_window + test_window > n,
        spec_window_count(n as nat, train_window as nat, test_window as nat, step as nat) * step
            + train_window + test_window <= usize::MAX,
        spec_window_count(n as nat, train_window as nat, test_window as nat, step as nat) < usize::MAX,
    ensures
        out@.len() == spec_window_count(n as nat, train_window as nat, test_window as nat, step as nat),
        forall|k: int| 0 <= k < out@.len() ==> #[trigger] out@[k].test_end <= n,
        forall|k: int|
            0 <= k < out@.len() ==> spec_is_window(#[trigger] out@[k], k as nat, train_window as nat, test_window as nat, step as nat),
{
    let ghost count = spec_window_count(n as nat, train_window as nat, test_window as nat, step as nat);
    let ghost st = step as nat;
    let ghost tw = train_window as nat;
    let ghost tt = test_window as nat;
    let ghost nn = n as nat;
    let mut out: Vec<WalkForwardWindow> = Vec::new();
    if step == 0 {
        return out;
    }
    let mut start: usize = 0;
    let mut window_id: usize = 1;
    proof {
        lemma_count_bounds(nn, tw, tt, st);
    }
    while start + train_window + test_window <= n
        invariant
            step > 0,
            count == spec_window_count(n as nat, train_window as nat, test_window as nat, step as nat),
            count * step + train_window + test_window <= usize::MAX,
            count < usize::MAX,
            out@.len() <= count,
            start == out@.len() * step,
            start + train_window + test_window <= usize::MAX,
            window_id == out@.len() + 1,
            forall|k: int| 0 <= k < out@.len() ==> #[trigger] out@[k].test_end <= n,
            out@.len() > 0 ==> (out@.len() - 1) * step + train_window + test_window <= n,
            st == step && tw == train_window && tt == test_window && nn == n,
            forall|j: nat, k: nat| j <= k ==> #[trigger] (j * st) <= #[trigger] (k * st),
            forall|k: nat| #[trigger] (k * st) + tw + tt <= nn ==> k < count,
            forall|k: int|
                0 <= k < out@.len() ==> spec_is_window(#[trigger] out@[k], k as nat, train_window as nat, test_window as nat, step as nat),
        decreases count - out@.len(),
    {
        let ghost k: nat = out@.len();
        assert(start == k * st);
        assert(k * st + tw + tt <= nn);
        assert(k < count);
        let train_start: usize = start;
        let train_end: usize = start + train_window;
        let test_start: usize = train_end;
        let test_end: usize = train_end + test_window;
        out.push(WalkForwardWindow { window: window_id, train_start, train_end, test_start, test_end });
        proof {
            assert((k + 1) * step == k * step + step) by (nonlinear_arith);
            assert(((k + 1) as nat) * st <= count * st);
        }
        start = start + step;
        window_id = window_id + 1;
    }
    proof {
        let k: nat = out@.len();
        if k < count {
            lemma_count_bounds(nn, tw, tt, st);
            assert(k * st + tw + tt <= nn);
            assert(false);
        }
    }
    out
}

/// Facts about `spec_window_count`: window `k` fits within the data exactly
/// when `k` is below the count.
pub proof fn lemma_count_bounds(n: nat, train_window: nat, test_window: nat, step: nat)
    requires
        step > 0,
    ensures
        forall|j: nat, k: nat| j <= k ==> #[trigger] (j * step) <= #[trigger] (k * step),
        forall|k: nat| #[trigger] (k * step) + train_window + test_window <= n
            <==> k < spec_window_count(n, train_window, test_window, step),
        spec_window_count(n, train_window, test_window, step) > 0 ==> (spec_window_count(n, train_window, test_window, step) - 1) * step
            <= n - train_window - test_window,
{
    assert forall|j: nat, k: nat| j <= k implies #[trigger] (j * step) <= #[trigger] (k * step) by {
        assert(j * step <= k * step) by (nonlinear_arith)
            requires
                j <= k,
        ;
    }
    let c: nat = spec_window_count(n, train_window, test_window, step);
    if train_window + test_window <= n {
        let d: nat = (n - train_window - test_window) as nat;
        assert(c == d / step + 1);
        assert((d / step) * step <= d) by (nonlinear_arith)
            requires
                step > 0,
        ;
        assert forall|k: nat| #[trigger] (k * step) + train_window + test_window <= n <==> k < c by {
            if k * step <= d {
                assert(k <= d / step) by (nonlinear_arith)
                    requires
                        k * step <= d,
                        step > 0,
                ;
            }
            if k < c {
                assert(k * step <= (d / step) * step) by (nonlinear_arith)
                    requires
                        k <= d / step,
                ;
            }
        }
    } else {
        assert forall|k: nat| #[trigger] (k * step) + train_window + test_window <= n <==> k < c by {
        }
    }
}

} // verus!
