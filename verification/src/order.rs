//! The order in which the entries of a registry are visited.
//!
//! A registry is seen here as the sequence of its `enabled` flags, one per
//! entry, in registration order. Startup walks the enabled positions upwards,
//! shutdown walks them downwards.

use vstd::prelude::*;

verus! {

/// The positions visited by a startup sweep: every enabled position, lowest
/// first.
pub open spec fn start_order(flags: Seq<bool>) -> Seq<int>
    decreases flags.len(),
{
    if flags.len() == 0 {
        Seq::empty()
    } else if flags.last() {
        start_order(flags.drop_last()).push(flags.len() - 1)
    } else {
        start_order(flags.drop_last())
    }
}

/// The positions visited by a shutdown sweep: every enabled position, highest
/// first.
pub open spec fn stop_order(flags: Seq<bool>) -> Seq<int>
    decreases flags.len(),
{
    if flags.len() == 0 {
        Seq::empty()
    } else if flags.last() {
        seq![flags.len() - 1] + stop_order(flags.drop_last())
    } else {
        stop_order(flags.drop_last())
    }
}

/// `s` grows strictly from each element to the next.
pub open spec fn ascending(s: Seq<int>) -> bool {
    forall|a: int, b: int| 0 <= a < b < s.len() ==> s[a] < s[b]
}

/// `s` falls strictly from each element to the next.
pub open spec fn descending(s: Seq<int>) -> bool {
    forall|a: int, b: int| 0 <= a < b < s.len() ==> s[a] > s[b]
}

/// Every element of the startup order is an enabled position, the order is
/// strictly ascending, and no enabled position is missing from it.
pub proof fn lemma_start_order_exact(flags: Seq<bool>)
    ensures
        forall|k: int|
            0 <= k < start_order(flags).len() ==> 0 <= #[trigger] start_order(flags)[k]
                < flags.len() && flags[start_order(flags)[k]],
        ascending(start_order(flags)),
        forall|i: int| 0 <= i < flags.len() && flags[i] ==> start_order(flags).contains(i),
        start_order(flags).len() <= flags.len(),
    decreases flags.len(),
{
    if flags.len() > 0 {
        let shorter = flags.drop_last();
        lemma_start_order_exact(shorter);
        let earlier = start_order(shorter);
        let whole = start_order(flags);
        assert forall|i: int| 0 <= i < flags.len() && flags[i] implies whole.contains(i) by {
            if i < shorter.len() {
                assert(shorter[i] == flags[i]);
                assert(earlier.contains(i));
                let k = choose|k: int| 0 <= k < earlier.len() && earlier[k] == i;
                assert(whole[k] == i);
            } else {
                assert(whole[whole.len() - 1] == i);
            }
        }
    }
}

/// The startup order of the first `n` entries is the beginning of the startup
/// order of all of them.
pub proof fn lemma_start_order_prefix(flags: Seq<bool>, n: int)
    requires
        0 <= n <= flags.len(),
    ensures
        start_order(flags.take(n)).len() <= start_order(flags).len(),
        start_order(flags.take(n)) == start_order(flags).take(
            start_order(flags.take(n)).len() as int,
        ),
    decreases flags.len() - n,
{
    if n == flags.len() {
        assert(flags.take(n) == flags);
    } else {
        let shorter = flags.drop_last();
        lemma_start_order_prefix(shorter, n);
        assert(shorter.take(n) == flags.take(n));
    }
}

/// Every element of the shutdown order is an enabled position, the order is
/// strictly descending, and no enabled position is missing from it.
pub proof fn lemma_stop_order_exact(flags: Seq<bool>)
    ensures
        forall|k: int|
            0 <= k < stop_order(flags).len() ==> 0 <= #[trigger] stop_order(flags)[k]
                < flags.len() && flags[stop_order(flags)[k]],
        descending(stop_order(flags)),
        forall|i: int| 0 <= i < flags.len() && flags[i] ==> stop_order(flags).contains(i),
        stop_order(flags).len() <= flags.len(),
{
    lemma_start_order_exact(flags);
    lemma_shutdown_mirrors_startup(flags);
    let up = start_order(flags);
    let down = stop_order(flags);
    assert forall|i: int| 0 <= i < flags.len() && flags[i] implies down.contains(i) by {
        let k = choose|k: int| 0 <= k < up.len() && up[k] == i;
        assert(down[up.len() - 1 - k] == i);
    }
}

/// Shutdown visits the entries in exactly the reverse of the startup order.
pub proof fn lemma_shutdown_mirrors_startup(flags: Seq<bool>)
    ensures
        stop_order(flags) == start_order(flags).reverse(),
    decreases flags.len(),
{
    if flags.len() > 0 {
        let shorter = flags.drop_last();
        lemma_shutdown_mirrors_startup(shorter);
        assert(stop_order(flags) =~= start_order(flags).reverse());
    } else {
        assert(stop_order(flags) =~= start_order(flags).reverse());
    }
}

/// The test "position `i` lies in `flags` and is enabled there".
pub open spec fn enabled_in(flags: Seq<bool>) -> spec_fn(int) -> bool {
    |i: int| 0 <= i < flags.len() && flags[i]
}

/// Two tests that agree on every element of `s` keep the same elements.
proof fn lemma_filter_agrees(s: Seq<int>, p: spec_fn(int) -> bool, q: spec_fn(int) -> bool)
    requires
        forall|k: int| 0 <= k < s.len() ==> p(#[trigger] s[k]) == q(s[k]),
    ensures
        s.filter(p) == s.filter(q),
    decreases s.len(),
{
    reveal(Seq::filter);
    if s.len() > 0 {
        lemma_filter_agrees(s.drop_last(), p, q);
        assert(p(s[s.len() - 1]) == q(s[s.len() - 1]));
    }
}

/// The startup order is the registration order without the disabled entries.
pub proof fn lemma_start_order_keeps_enabled(flags: Seq<bool>)
    ensures
        start_order(flags) == Seq::new(flags.len(), |i: int| i).filter(enabled_in(flags)),
    decreases flags.len(),
{
    reveal(Seq::filter);
    let all = Seq::new(flags.len(), |i: int| i);
    if flags.len() > 0 {
        let shorter = flags.drop_last();
        let fewer = Seq::new(shorter.len(), |i: int| i);
        lemma_start_order_keeps_enabled(shorter);
        assert(all.drop_last() =~= fewer);
        lemma_filter_agrees(fewer, enabled_in(flags), enabled_in(shorter));
    }
}

/// Shutdown mirrors startup among the entries that are still enabled: when
/// entries were disabled between the two sweeps and none was enabled, the
/// shutdown order is the reversed startup order without the entries that
/// were disabled meanwhile.
pub proof fn lemma_shutdown_mirrors_startup_of_enabled(started: Seq<bool>, stopped: Seq<bool>)
    requires
        started.len() == stopped.len(),
        forall|i: int| 0 <= i < stopped.len() && stopped[i] ==> started[i],
    ensures
        stop_order(stopped) == start_order(started).reverse().filter(enabled_in(stopped)),
    decreases started.len(),
{
    reveal(Seq::filter);
    if started.len() == 0 {
        assert(start_order(started).reverse() =~= Seq::<int>::empty());
    } else {
        let last = started.len() - 1;
        let earlier_started = started.drop_last();
        let earlier_stopped = stopped.drop_last();
        lemma_shutdown_mirrors_startup_of_enabled(earlier_started, earlier_stopped);
        lemma_start_order_exact(earlier_started);
        let up = start_order(earlier_started);
        assert forall|k: int| 0 <= k < up.reverse().len() implies enabled_in(stopped)(
            #[trigger] up.reverse()[k],
        ) == enabled_in(earlier_stopped)(up.reverse()[k]) by {
            assert(up.reverse()[k] == up[up.len() - 1 - k]);
        }
        lemma_filter_agrees(up.reverse(), enabled_in(stopped), enabled_in(earlier_stopped));
        if started[last] {
            assert(start_order(started).reverse() =~= seq![last] + up.reverse());
            Seq::filter_distributes_over_add(seq![last], up.reverse(), enabled_in(stopped));
            assert(seq![last].drop_last() =~= Seq::<int>::empty());
            assert(Seq::<int>::empty().filter(enabled_in(stopped)) =~= Seq::<int>::empty());
            assert(seq![last].last() == last);
            assert(seq![last].filter(enabled_in(stopped)) =~= if stopped[last] {
                seq![last]
            } else {
                Seq::<int>::empty()
            });
            assert(stop_order(stopped) =~= start_order(started).reverse().filter(
                enabled_in(stopped),
            ));
        }
    }
}

/// A disabled entry is visited by neither sweep.
pub proof fn lemma_disabled_never_visited(flags: Seq<bool>, position: int)
    requires
        0 <= position < flags.len(),
        !flags[position],
    ensures
        !start_order(flags).contains(position),
        !stop_order(flags).contains(position),
{
    lemma_start_order_exact(flags);
    lemma_stop_order_exact(flags);
}

/// With every entry enabled the startup order is the registration order.
pub proof fn lemma_all_enabled_order(flags: Seq<bool>)
    requires
        forall|i: int| 0 <= i < flags.len() ==> flags[i],
    ensures
        start_order(flags) == Seq::new(flags.len(), |i: int| i),
    decreases flags.len(),
{
    if flags.len() > 0 {
        lemma_all_enabled_order(flags.drop_last());
    }
    assert(start_order(flags) =~= Seq::new(flags.len(), |i: int| i));
}

} // verus!
