//! Things kept by tick, in tick order.
use vstd::prelude::*;

verus! {

/// Entries in strictly ascending order of their ticks.
pub open spec fn ascending<S>(e: Seq<(u32, S)>) -> bool {
    forall|i: int, j: int| 0 <= i < j < e.len() ==> (#[trigger] e[i]).0 < (#[trigger] e[j]).0
}

/// Whether something is kept at a tick.
pub open spec fn has_tick<S>(e: Seq<(u32, S)>, tick: u32) -> bool {
    exists|i: int| 0 <= i < e.len() && (#[trigger] e[i]).0 == tick
}

/// The entries after putting something at a tick: in its place by tick, instead
/// of what was kept there before.
pub open spec fn put<S>(e: Seq<(u32, S)>, tick: u32, s: S) -> Seq<(u32, S)>
    decreases e.len(),
{
    if e.len() == 0 || e.last().0 < tick {
        e.push((tick, s))
    } else if e.last().0 == tick {
        e.drop_last().push((tick, s))
    } else {
        put(e.drop_last(), tick, s).push(e.last())
    }
}

/// The entry with the largest tick not above `target`: the number of entries
/// at or below it, less one.
pub open spec fn count_upto<S>(e: Seq<(u32, S)>, target: u32) -> nat
    decreases e.len(),
{
    if e.len() == 0 {
        0
    } else if e.last().0 <= target {
        e.len()
    } else {
        count_upto(e.drop_last(), target)
    }
}

/// Exactly the entries in front of `count_upto` are at or below the target.
pub proof fn lemma_count_upto<S>(e: Seq<(u32, S)>, target: u32)
    requires
        ascending(e),
    ensures
        count_upto(e, target) <= e.len(),
        forall|i: int| 0 <= i < count_upto(e, target) ==> (#[trigger] e[i]).0 <= target,
        forall|i: int| count_upto(e, target) <= i < e.len() ==> (#[trigger] e[i]).0 > target,
    decreases e.len(),
{
    if e.len() > 0 {
        let d = e.drop_last();
        assert forall|i: int, j: int| 0 <= i < j < d.len() implies (#[trigger] d[i]).0 < (
        #[trigger] d[j]).0 by {
            assert(e[i].0 < e[j].0);
        }
        lemma_count_upto(d, target);
        if e.last().0 <= target {
            assert forall|i: int| 0 <= i < e.len() implies (#[trigger] e[i]).0 <= target by {
                if i < e.len() - 1 {
                    assert(e[i].0 < e[e.len() - 1].0);
                }
            }
        } else {
            assert forall|i: int| 0 <= i < count_upto(e, target) implies (#[trigger] e[i]).0
                <= target by {
                assert(d[i].0 <= target);
            }
            assert forall|i: int| count_upto(e, target) <= i < e.len() implies (
            #[trigger] e[i]).0 > target by {
                if i < e.len() - 1 {
                    assert(d[i].0 > target);
                }
            }
        }
    }
}

/// Putting something at a tick keeps the order, keeps it there, and keeps
/// every other entry.
pub proof fn lemma_put<S>(e: Seq<(u32, S)>, tick: u32, s: S)
    requires
        ascending(e),
    ensures
        ascending(put(e, tick, s)),
        put(e, tick, s).contains((tick, s)),
        put(e, tick, s).len() == e.len() + if has_tick(e, tick) {
            0int
        } else {
            1int
        },
        forall|x: (u32, S)|
            x.0 != tick ==> (#[trigger] put(e, tick, s).contains(x) <==> e.contains(x)),
        forall|i: int|
            0 <= i < put(e, tick, s).len() ==> (#[trigger] put(e, tick, s)[i]).0 == tick
                || has_tick(e, put(e, tick, s)[i].0),
    decreases e.len(),
{
    let p = put(e, tick, s);
    if e.len() == 0 || e.last().0 < tick {
        assert(p[p.len() - 1] == (tick, s));
        assert forall|i: int, j: int| 0 <= i < j < p.len() implies (#[trigger] p[i]).0 < (
        #[trigger] p[j]).0 by {
            if j == e.len() && i < e.len() - 1 {
                assert(e[i].0 < e[e.len() - 1].0);
            }
        }
        assert(!has_tick(e, tick)) by {
            if has_tick(e, tick) {
                let i = choose|i: int| 0 <= i < e.len() && (#[trigger] e[i]).0 == tick;
                if i < e.len() - 1 {
                    assert(e[i].0 < e[e.len() - 1].0);
                }
            }
        }
        assert forall|x: (u32, S)| x.0 != tick implies (#[trigger] p.contains(x) <==> e.contains(
            x,
        )) by {
            if e.contains(x) {
                let i = choose|i: int| 0 <= i < e.len() && e[i] == x;
                assert(p[i] == x);
            }
        }
        assert forall|i: int| 0 <= i < p.len() implies (#[trigger] p[i]).0 == tick || has_tick(
            e,
            p[i].0,
        ) by {
            if i < e.len() {
                assert(e[i].0 == p[i].0);
            }
        }
    } else {
        let d = e.drop_last();
        let last = e.last();
        assert forall|i: int, j: int| 0 <= i < j < d.len() implies (#[trigger] d[i]).0 < (
        #[trigger] d[j]).0 by {
            assert(e[i].0 < e[j].0);
        }
        assert forall|i: int| 0 <= i < d.len() implies (#[trigger] d[i]).0 < last.0 by {
            assert(e[i].0 < e[e.len() - 1].0);
        }
        if last.0 == tick {
            assert(e[e.len() - 1].0 == tick);
            assert(p[p.len() - 1] == (tick, s));
            assert forall|x: (u32, S)| x.0 != tick implies (#[trigger] p.contains(x)
                <==> e.contains(x)) by {
                if e.contains(x) {
                    let i = choose|i: int| 0 <= i < e.len() && e[i] == x;
                    assert(p[i] == x);
                }
                if p.contains(x) {
                    let i = choose|i: int| 0 <= i < p.len() && p[i] == x;
                    assert(e[i] == x);
                }
            }
            assert forall|i: int| 0 <= i < p.len() implies (#[trigger] p[i]).0 == tick || has_tick(
                e,
                p[i].0,
            ) by {
                if i < d.len() {
                    assert(e[i].0 == p[i].0);
                }
            }
        } else {
            lemma_put(d, tick, s);
            let q = put(d, tick, s);
            assert forall|i: int| 0 <= i < q.len() implies (#[trigger] q[i]).0 < last.0 by {
                if q[i].0 != tick {
                    assert(has_tick(d, q[i].0));
                    let k = choose|k: int| 0 <= k < d.len() && (#[trigger] d[k]).0 == q[i].0;
                    assert(d[k].0 < last.0);
                }
            }
            assert forall|i: int, j: int| 0 <= i < j < p.len() implies (#[trigger] p[i]).0 < (
            #[trigger] p[j]).0 by {
                if j < q.len() {
                    assert(q[i].0 < q[j].0);
                }
            }
            let at = choose|i: int| 0 <= i < q.len() && q[i] == (tick, s);
            assert(p[at] == (tick, s));
            assert(has_tick(d, tick) <==> has_tick(e, tick)) by {
                if has_tick(d, tick) {
                    let i = choose|i: int| 0 <= i < d.len() && (#[trigger] d[i]).0 == tick;
                    assert(e[i].0 == tick);
                }
                if has_tick(e, tick) {
                    let i = choose|i: int| 0 <= i < e.len() && (#[trigger] e[i]).0 == tick;
                    assert(d[i].0 == tick);
                }
            }
            assert forall|x: (u32, S)| x.0 != tick implies (#[trigger] p.contains(x)
                <==> e.contains(x)) by {
                assert(q.contains(x) <==> d.contains(x));
                if e.contains(x) {
                    let i = choose|i: int| 0 <= i < e.len() && e[i] == x;
                    if i < d.len() {
                        assert(d[i] == x);
                        let k = choose|k: int| 0 <= k < q.len() && q[k] == x;
                        assert(p[k] == x);
                    } else {
                        assert(p[p.len() - 1] == x);
                    }
                }
                if p.contains(x) {
                    let i = choose|i: int| 0 <= i < p.len() && p[i] == x;
                    if i < q.len() {
                        assert(q[i] == x);
                        let k = choose|k: int| 0 <= k < d.len() && d[k] == x;
                        assert(e[k] == x);
                    } else {
                        assert(e[e.len() - 1] == x);
                    }
                }
            }
            assert forall|i: int| 0 <= i < p.len() implies (#[trigger] p[i]).0 == tick || has_tick(
                e,
                p[i].0,
            ) by {
                if i < q.len() {
                    if q[i].0 != tick {
                        assert(has_tick(d, q[i].0));
                        let k = choose|k: int| 0 <= k < d.len() && (#[trigger] d[k]).0 == q[i].0;
                        assert(e[k].0 == p[i].0);
                    }
                } else {
                    assert(e[e.len() - 1].0 == p[i].0);
                }
            }
        }
    }
}

/// Put something at a tick.
pub fn put_at<S>(e: &mut Vec<(u32, S)>, tick: u32, s: S)
    ensures
        final(e)@ == put(old(e)@, tick, s),
{
    let ghost all = e@;
    let mut i: usize = e.len();
    proof {
        assert(all.take(i as int) =~= all);
        assert(put(all, tick, s) + all.skip(i as int) =~= put(all, tick, s));
    }
    while i > 0 && e[i - 1].0 > tick
        invariant
            i <= e@.len(),
            e@ == old(e)@,
            all == e@,
            put(all.take(i as int), tick, s) + all.skip(i as int) == put(all, tick, s),
        decreases i,
    {
        proof {
            let upto = all.take(i as int);
            assert(upto.drop_last() =~= all.take(i - 1));
            assert(put(all.take(i - 1), tick, s).push(all[i - 1]) + all.skip(i as int) =~= put(
                all.take(i - 1),
                tick,
                s,
            ) + all.skip(i - 1));
        }
        i = i - 1;
    }
    let ghost upto = all.take(i as int);
    if i > 0 && e[i - 1].0 == tick {
        let old_entry = e.remove(i - 1);
        e.insert(i - 1, (tick, s));
        proof {
            assert(upto.last() == all[i - 1]);
            assert(e@ =~= upto.drop_last().push((tick, s)) + all.skip(i as int));
        }
    } else {
        e.insert(i, (tick, s));
        proof {
            if i > 0 {
                assert(upto.last() == all[i - 1]);
            }
            assert(e@ =~= upto.push((tick, s)) + all.skip(i as int));
        }
    }
}

/// How many entries are at or below a tick.
pub fn number_upto<S>(e: &Vec<(u32, S)>, target: u32) -> (n: usize)
    ensures
        n == count_upto(e@, target),
        n <= e@.len(),
{
    let mut i: usize = e.len();
    proof {
        assert(e@.take(i as int) =~= e@);
    }
    while i > 0 && e[i - 1].0 > target
        invariant
            i <= e@.len(),
            count_upto(e@.take(i as int), target) == count_upto(e@, target),
        decreases i,
    {
        assert(e@.take(i as int).drop_last() =~= e@.take(i - 1));
        i = i - 1;
    }
    proof {
        if i > 0 {
            assert(e@.take(i as int).last() == e@[i - 1]);
        }
    }
    i
}

/// The distance of two ticks.
pub open spec fn distance(a: u32, b: u32) -> nat {
    if a >= b {
        (a - b) as nat
    } else {
        (b - a) as nat
    }
}

pub fn ticks_apart(a: u32, b: u32) -> (d: u32)
    ensures
        d == distance(a, b),
{
    if a >= b {
        a - b
    } else {
        b - a
    }
}

} // verus!
