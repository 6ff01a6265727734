use vstd::prelude::*;
use crate::action::StepperAction;
use crate::scheduler::{add_phase, adds_of, frame_model, remove_phase, removes_of};
use crate::stepper::{add_one, remove_one, step_all, step_calls, CallKind, RegistryView};

verus! {

/// `a` adds the id `id`.
pub open spec fn is_add_of<S>(a: StepperAction<S>, id: Seq<char>) -> bool {
    a matches StepperAction::Add(x, _) && x@ == id
}

/// `a` removes the id `id`.
pub open spec fn is_remove_of<S>(a: StepperAction<S>, id: Seq<char>) -> bool {
    a matches StepperAction::Remove(x) && x@ == id
}

/// No id is added twice.
pub open spec fn unique_adds<S>(acts: Seq<StepperAction<S>>) -> bool {
    forall|i: int, j: int, id: Seq<char>|
        0 <= i < j < acts.len() && #[trigger] is_add_of(acts[i], id) ==> !#[trigger] is_add_of(
            acts[j],
            id,
        )
}

/// Some action adds `x` before another adds `y`.
pub open spec fn added_before<S>(acts: Seq<StepperAction<S>>, x: Seq<char>, y: Seq<char>) -> bool {
    exists|i: int, j: int| 0 <= i < j < acts.len() && is_add_of(acts[i], x) && is_add_of(acts[j], y)
}

/// The action at `i` adds `id`, and no later action removes it.
pub open spec fn survives<S>(acts: Seq<StepperAction<S>>, i: int, id: Seq<char>) -> bool {
    &&& 0 <= i < acts.len()
    &&& is_add_of(acts[i], id)
    &&& forall|j: int| i < j < acts.len() ==> !#[trigger] is_remove_of(acts[j], id)
}

/// Applying the actions one by one, each initialize succeeding; events change nothing.
pub open spec fn replay<S>(m: RegistryView, acts: Seq<StepperAction<S>>) -> RegistryView
    decreases acts.len(),
{
    if acts.len() == 0 {
        m
    } else {
        let prev = replay(m, acts.drop_last());
        match acts.last() {
            StepperAction::Add(id, _) => add_one(prev, id@, true),
            StepperAction::Remove(id) => remove_one(prev, id@),
            StepperAction::Event(_) => prev,
        }
    }
}

pub open spec fn empty_registry() -> RegistryView {
    RegistryView { ids: Seq::empty(), calls: Seq::empty() }
}

/// Starting from an empty registry and applying Add and Remove actions whose
/// added ids are unique, the registered ids are exactly those added and not
/// removed afterwards, without repetition, in the order they were added.
pub proof fn lemma_active_ids_follow_actions<S>(acts: Seq<StepperAction<S>>)
    requires
        unique_adds(acts),
    ensures
        replay(empty_registry(), acts).ids.no_duplicates(),
        forall|id: Seq<char>|
            #[trigger] replay(empty_registry(), acts).ids.contains(id) <==> exists|i: int|
                survives(acts, i, id),
        forall|a: int, b: int|
            0 <= a < b < replay(empty_registry(), acts).ids.len() ==> #[trigger] added_before(
                acts,
                replay(empty_registry(), acts).ids[a],
                replay(empty_registry(), acts).ids[b],
            ),
    decreases acts.len(),
{
    if acts.len() == 0 {
        return;
    }
    let pre = acts.drop_last();
    let n = acts.len() - 1;
    assert(unique_adds(pre)) by {
        assert forall|i: int, j: int, id: Seq<char>|
            0 <= i < j < pre.len() && #[trigger] is_add_of(pre[i], id) implies !#[trigger] is_add_of(
            pre[j],
            id,
        ) by {
            assert(pre[i] == acts[i] && pre[j] == acts[j]);
        }
    }
    lemma_active_ids_follow_actions(pre);
    let p = replay(empty_registry(), pre);
    let r = replay(empty_registry(), acts);
    assert(forall|k: int| 0 <= k < pre.len() ==> pre[k] == acts[k]);
    match acts.last() {
        StepperAction::Add(x, _) => {
            let id = x@;
            assert(is_add_of(acts[n], id));
            assert(!p.ids.contains(id)) by {
                if p.ids.contains(id) {
                    let i = choose|i: int| survives(pre, i, id);
                    assert(is_add_of(acts[i], id));
                }
            }
            assert(r.ids == p.ids.push(id));
            assert(r.ids.no_duplicates()) by {
                assert forall|a: int, b: int| 0 <= a < r.ids.len() && 0 <= b < r.ids.len() && a != b
                    implies r.ids[a] != r.ids[b] by {
                    if a == n_ids(p) {
                        assert(p.ids.contains(r.ids[b]) || b == n_ids(p));
                    } else if b == n_ids(p) {
                        assert(p.ids.contains(r.ids[a]));
                    }
                }
            }
            assert forall|y: Seq<char>| #[trigger] r.ids.contains(y) <==> exists|i: int|
                survives(acts, i, y) by {
                if y == id {
                    assert(r.ids[n_ids(p)] == y);
                    assert(survives(acts, n, y));
                } else {
                    if r.ids.contains(y) {
                        let k = choose|k: int| 0 <= k < r.ids.len() && r.ids[k] == y;
                        assert(p.ids[k] == y);
                        assert(p.ids.contains(y));
                        let i = choose|i: int| survives(pre, i, y);
                        assert(survives(acts, i, y));
                    }
                    if exists|i: int| survives(acts, i, y) {
                        let i = choose|i: int| survives(acts, i, y);
                        assert(i != n);
                        assert(survives(pre, i, y));
                        assert(p.ids.contains(y));
                        let k = choose|k: int| 0 <= k < p.ids.len() && p.ids[k] == y;
                        assert(r.ids[k] == y);
                    }
                }
            }
            assert forall|a: int, b: int| 0 <= a < b < r.ids.len() implies #[trigger] added_before(
                acts,
                r.ids[a],
                r.ids[b],
            ) by {
                if b == n_ids(p) {
                    assert(p.ids.contains(r.ids[a]));
                    let i = choose|i: int| survives(pre, i, r.ids[a]);
                    assert(is_add_of(acts[i], r.ids[a]) && is_add_of(acts[n], r.ids[b]));
                } else {
                    assert(r.ids[a] == p.ids[a] && r.ids[b] == p.ids[b]);
                    assert(added_before(pre, p.ids[a], p.ids[b]));
                    let (i, j) = choose|i: int, j: int|
                        0 <= i < j < pre.len() && is_add_of(pre[i], p.ids[a]) && is_add_of(
                            pre[j],
                            p.ids[b],
                        );
                    assert(is_add_of(acts[i], r.ids[a]) && is_add_of(acts[j], r.ids[b]));
                }
            }
        },
        StepperAction::Remove(x) => {
            let id = x@;
            assert(is_remove_of(acts[n], id));
            if p.ids.contains(id) {
                let k0 = p.ids.index_of(id);
                assert(r.ids == p.ids.remove(k0));
                assert(r.ids.no_duplicates()) by {
                    assert forall|a: int, b: int|
                        0 <= a < r.ids.len() && 0 <= b < r.ids.len() && a != b implies r.ids[a]
                        != r.ids[b] by {
                        let a2 = if a < k0 { a } else { a + 1 };
                        let b2 = if b < k0 { b } else { b + 1 };
                        assert(r.ids[a] == p.ids[a2] && r.ids[b] == p.ids[b2]);
                    }
                }
                assert forall|y: Seq<char>| #[trigger] r.ids.contains(y) <==> exists|i: int|
                    survives(acts, i, y) by {
                    if r.ids.contains(y) {
                        let k = choose|k: int| 0 <= k < r.ids.len() && r.ids[k] == y;
                        let k2 = if k < k0 { k } else { k + 1 };
                        assert(p.ids[k2] == y);
                        assert(y != id);
                        assert(p.ids.contains(y));
                        let i = choose|i: int| survives(pre, i, y);
                        assert(survives(acts, i, y));
                    }
                    if exists|i: int| survives(acts, i, y) {
                        let i = choose|i: int| survives(acts, i, y);
                        assert(i != n);
                        assert(y != id) by {
                            if y == id {
                                assert(i < n);
                                assert(!is_remove_of(acts[n], y));
                            }
                        }
                        assert(survives(pre, i, y));
                        assert(p.ids.contains(y));
                        let k = choose|k: int| 0 <= k < p.ids.len() && p.ids[k] == y;
                        assert(k != k0);
                        let k2 = if k < k0 { k } else { k - 1 };
                        assert(r.ids[k2] == y);
                    }
                }
                assert forall|a: int, b: int| 0 <= a < b < r.ids.len() implies #[trigger] added_before(
                acts,
                r.ids[a],
                r.ids[b],
            ) by {
                    let a2 = if a < k0 { a } else { a + 1 };
                    let b2 = if b < k0 { b } else { b + 1 };
                    assert(r.ids[a] == p.ids[a2] && r.ids[b] == p.ids[b2]);
                    assert(added_before(pre, p.ids[a2], p.ids[b2]));
                    let (i, j) = choose|i: int, j: int|
                        0 <= i < j < pre.len() && is_add_of(pre[i], p.ids[a2]) && is_add_of(
                            pre[j],
                            p.ids[b2],
                        );
                    assert(is_add_of(acts[i], r.ids[a]) && is_add_of(acts[j], r.ids[b]));
                }
            } else {
                assert(r == p);
                assert forall|y: Seq<char>| #[trigger] r.ids.contains(y) <==> exists|i: int|
                    survives(acts, i, y) by {
                    if exists|i: int| survives(acts, i, y) {
                        let i = choose|i: int| survives(acts, i, y);
                        assert(i != n);
                        assert(survives(pre, i, y));
                    }
                    if r.ids.contains(y) {
                        let i = choose|i: int| survives(pre, i, y);
                        assert(y != id);
                        assert(survives(acts, i, y));
                    }
                }
                assert forall|a: int, b: int| 0 <= a < b < r.ids.len() implies #[trigger] added_before(
                acts,
                r.ids[a],
                r.ids[b],
            ) by {
                    assert(added_before(pre, p.ids[a], p.ids[b]));
                    let (i, j) = choose|i: int, j: int|
                        0 <= i < j < pre.len() && is_add_of(pre[i], p.ids[a]) && is_add_of(
                            pre[j],
                            p.ids[b],
                        );
                    assert(is_add_of(acts[i], r.ids[a]) && is_add_of(acts[j], r.ids[b]));
                }
            }
        },
        StepperAction::Event(_) => {
            assert(r == p);
            assert forall|y: Seq<char>| #[trigger] r.ids.contains(y) <==> exists|i: int|
                survives(acts, i, y) by {
                if exists|i: int| survives(acts, i, y) {
                    let i = choose|i: int| survives(acts, i, y);
                    assert(i != n);
                    assert(survives(pre, i, y));
                }
                if r.ids.contains(y) {
                    let i = choose|i: int| survives(pre, i, y);
                    assert(survives(acts, i, y));
                }
            }
            assert forall|a: int, b: int| 0 <= a < b < r.ids.len() implies #[trigger] added_before(
                acts,
                r.ids[a],
                r.ids[b],
            ) by {
                assert(added_before(pre, p.ids[a], p.ids[b]));
                    let (i, j) = choose|i: int, j: int|
                        0 <= i < j < pre.len() && is_add_of(pre[i], p.ids[a]) && is_add_of(
                            pre[j],
                            p.ids[b],
                        );
                assert(is_add_of(acts[i], r.ids[a]) && is_add_of(acts[j], r.ids[b]));
            }
        },
    }
}

/// A stepper whose `initialize` returns false is shut down exactly once, right
/// after, is never registered, and the step pass that follows does not reach it.
pub proof fn lemma_failed_initialize_never_stepped(m: RegistryView, id: Seq<char>)
    requires
        !m.ids.contains(id),
    ensures
        add_one(m, id, false).ids == m.ids,
        step_all(add_one(m, id, false)).calls == m.calls + seq![
            (id, CallKind::Initialize(false)),
            (id, CallKind::Shutdown),
        ] + step_calls(m.ids),
        !step_calls(m.ids).contains((id, CallKind::Step)),
        !step_calls(m.ids).contains((id, CallKind::Shutdown)),
{
    let later = step_calls(m.ids);
    assert(m.calls.push((id, CallKind::Initialize(false))).push((id, CallKind::Shutdown)) =~= m.calls
        + seq![(id, CallKind::Initialize(false)), (id, CallKind::Shutdown)]);
    if later.contains((id, CallKind::Step)) {
        let k = choose|k: int| 0 <= k < later.len() && later[k] == (id, CallKind::Step);
        assert(m.ids[k] == id);
    }
    if later.contains((id, CallKind::Shutdown)) {
        let k = choose|k: int| 0 <= k < later.len() && later[k] == (id, CallKind::Shutdown);
    }
}

/// Running each action in a frame of its own, every initialize succeeding.
pub open spec fn one_per_frame<S>(m: RegistryView, acts: Seq<StepperAction<S>>) -> RegistryView
    decreases acts.len(),
{
    if acts.len() == 0 {
        m
    } else {
        frame_model(one_per_frame(m, acts.drop_last()), seq![acts.last()], seq![true])
    }
}

/// The registered ids after one frame holding the single action `a` are those
/// of applying `a` alone: they depend on the ids before, not on the call log.
proof fn lemma_single_action_frame<S>(p: RegistryView, q: RegistryView, a: StepperAction<S>)
    requires
        p.ids == q.ids,
    ensures
        frame_model(p, seq![a], seq![true]).ids == replay(q, seq![a]).ids,
{
    let one = seq![a];
    assert(one.drop_last() =~= Seq::<StepperAction<S>>::empty());
    assert(one.last() == a);
    assert(replay(q, Seq::<StepperAction<S>>::empty()) == q);
    assert(remove_phase(p, Seq::<Seq<char>>::empty()) == p);
    let none = Seq::<StepperAction<S>>::empty();
    assert(removes_of(none) == Seq::<Seq<char>>::empty());
    assert(adds_of(none) == Seq::<Seq<char>>::empty());
    assert(removes_of(one) == match a {
        StepperAction::Remove(id) => removes_of(none).push(id@),
        _ => removes_of(none),
    });
    assert(adds_of(one) == match a {
        StepperAction::Add(id, _) => adds_of(none).push(id@),
        _ => adds_of(none),
    });
    match a {
        StepperAction::Add(id, _) => {
            assert(removes_of(one) =~= Seq::<Seq<char>>::empty());
            assert(adds_of(one) =~= seq![id@]);
            assert(seq![id@].drop_last() =~= Seq::<Seq<char>>::empty());
            assert(seq![true].drop_last() =~= Seq::<bool>::empty());
            assert(add_phase(p, Seq::<Seq<char>>::empty(), Seq::<bool>::empty()) == p);
            assert(add_phase(p, seq![id@], seq![true]) == add_one(p, id@, true));
        },
        StepperAction::Remove(id) => {
            assert(removes_of(one) =~= seq![id@]);
            assert(adds_of(one) =~= Seq::<Seq<char>>::empty());
            assert(seq![id@].drop_last() =~= Seq::<Seq<char>>::empty());
            assert(remove_phase(p, seq![id@]) == remove_one(p, id@));
            assert(add_phase(remove_one(p, id@), Seq::<Seq<char>>::empty(), seq![true])
                == remove_one(p, id@));
        },
        StepperAction::Event(_) => {
            assert(removes_of(one) =~= Seq::<Seq<char>>::empty());
            assert(adds_of(one) =~= Seq::<Seq<char>>::empty());
            assert(add_phase(p, Seq::<Seq<char>>::empty(), seq![true]) == p);
        },
    }
}

/// Driving the scheduler with one action per frame, every initialize
/// succeeding, registers the same ids as applying the actions one by one; so,
/// from an empty registry with unique added ids, the ids are exactly those
/// added and not removed afterwards, in the order they were added.
pub proof fn lemma_one_action_per_frame<S>(acts: Seq<StepperAction<S>>)
    requires
        unique_adds(acts),
    ensures
        one_per_frame(empty_registry(), acts).ids == replay(empty_registry(), acts).ids,
        forall|id: Seq<char>|
            #[trigger] one_per_frame(empty_registry(), acts).ids.contains(id) <==> exists|i: int|
                survives(acts, i, id),
        forall|a: int, b: int|
            0 <= a < b < one_per_frame(empty_registry(), acts).ids.len() ==> #[trigger] added_before(
                acts,
                one_per_frame(empty_registry(), acts).ids[a],
                one_per_frame(empty_registry(), acts).ids[b],
            ),
{
    lemma_one_per_frame_ids(empty_registry(), acts);
    lemma_active_ids_follow_actions(acts);
}

proof fn lemma_one_per_frame_ids<S>(m: RegistryView, acts: Seq<StepperAction<S>>)
    ensures
        one_per_frame(m, acts).ids == replay(m, acts).ids,
    decreases acts.len(),
{
    if acts.len() > 0 {
        let pre = acts.drop_last();
        lemma_one_per_frame_ids(m, pre);
        let p = one_per_frame(m, pre);
        let q = replay(m, pre);
        lemma_single_action_frame(p, q, acts.last());
        let one = seq![acts.last()];
        assert(one.drop_last() =~= Seq::<StepperAction<S>>::empty());
        assert(replay(q, Seq::<StepperAction<S>>::empty()) == q);
        assert(replay(q, one) == replay(m, acts));
    }
}

/// A `Remove` and an `Add` of the same registered id in one frame: the old
/// instance is shut down before the new one is initialized, and the id ends
/// up registered under the new instance, last in order.
pub proof fn lemma_remove_then_add_same_frame(m: RegistryView, id: Seq<char>)
    requires
        m.ids.no_duplicates(),
        m.ids.contains(id),
    ensures
        add_phase(remove_phase(m, seq![id]), seq![id], seq![true]).calls == m.calls.push(
            (id, CallKind::Shutdown),
        ).push((id, CallKind::Initialize(true))),
        add_phase(remove_phase(m, seq![id]), seq![id], seq![true]).ids.last() == id,
        add_phase(remove_phase(m, seq![id]), seq![id], seq![true]).ids.len() == m.ids.len(),
        add_phase(remove_phase(m, seq![id]), seq![id], seq![true]).ids.no_duplicates(),
{
    let one = seq![id];
    assert(one.drop_last() =~= Seq::<Seq<char>>::empty());
    assert(seq![true].drop_last() =~= Seq::<bool>::empty());
    assert(remove_phase(m, Seq::<Seq<char>>::empty()) == m);
    let k0 = m.ids.index_of(id);
    let mid = remove_one(m, id);
    assert(remove_phase(m, one) == mid);
    assert(mid.ids == m.ids.remove(k0));
    assert(!mid.ids.contains(id)) by {
        if mid.ids.contains(id) {
            let k = choose|k: int| 0 <= k < mid.ids.len() && mid.ids[k] == id;
            let k2 = if k < k0 { k } else { k + 1 };
            assert(m.ids[k2] == id);
        }
    }
    assert(add_phase(mid, Seq::<Seq<char>>::empty(), Seq::<bool>::empty()) == mid);
    let fin = add_phase(mid, one, seq![true]);
    assert(fin == add_one(mid, id, true));
    assert(fin.ids.no_duplicates()) by {
        assert forall|a: int, b: int| 0 <= a < fin.ids.len() && 0 <= b < fin.ids.len() && a != b
            implies fin.ids[a] != fin.ids[b] by {
            let last = mid.ids.len() as int;
            if a != last && b != last {
                let a2 = if a < k0 { a } else { a + 1 };
                let b2 = if b < k0 { b } else { b + 1 };
                assert(fin.ids[a] == m.ids[a2] && fin.ids[b] == m.ids[b2]);
            } else if a == last {
                assert(fin.ids[b] == mid.ids[b]);
            } else {
                assert(fin.ids[a] == mid.ids[a]);
            }
        }
    }
}

/// The first frame of a swap: only the removal of `current`.
pub open spec fn swap_first_frame(m: RegistryView, current: Seq<char>) -> RegistryView {
    step_all(add_phase(remove_phase(m, seq![current]), Seq::empty(), Seq::empty()))
}

/// The second frame of a swap: only the addition of `next`, initialized with result `ok`.
pub open spec fn swap_second_frame(m: RegistryView, next: Seq<char>, ok: bool) -> RegistryView {
    step_all(add_phase(remove_phase(m, Seq::empty()), seq![next], seq![ok]))
}

/// A swap spread over two frames shuts the current stepper down in the first
/// frame, before anything of the second; the replacement's `initialize` is
/// the first call of the second frame.
pub proof fn lemma_swap_shutdown_precedes_initialize(
    m: RegistryView,
    current: Seq<char>,
    next: Seq<char>,
    ok: bool,
)
    requires
        m.ids.no_duplicates(),
        m.ids.contains(current),
    ensures
        swap_first_frame(m, current).calls[m.calls.len() as int] == (current, CallKind::Shutdown),
        !swap_first_frame(m, current).ids.contains(current),
        swap_second_frame(swap_first_frame(m, current), next, ok).calls.take(
            swap_first_frame(m, current).calls.len() as int,
        ) == swap_first_frame(m, current).calls,
        !swap_first_frame(m, current).ids.contains(next) ==> swap_second_frame(
            swap_first_frame(m, current),
            next,
            ok,
        ).calls[swap_first_frame(m, current).calls.len() as int] == (next, CallKind::Initialize(ok)),
{
    let one = seq![current];
    assert(one.drop_last() =~= Seq::<Seq<char>>::empty());
    assert(remove_phase(m, Seq::<Seq<char>>::empty()) == m);
    assert(one.last() == current);
    let k0 = m.ids.index_of(current);
    let mid = remove_one(m, current);
    assert(remove_phase(m, one) == mid);
    assert(add_phase(mid, Seq::empty(), Seq::empty()) == mid);
    let m1 = swap_first_frame(m, current);
    assert(m1.ids == mid.ids);
    assert(m1.calls[m.calls.len() as int] == (current, CallKind::Shutdown));
    assert(!mid.ids.contains(current)) by {
        if mid.ids.contains(current) {
            let k = choose|k: int| 0 <= k < mid.ids.len() && mid.ids[k] == current;
            let k2 = if k < k0 { k } else { k + 1 };
            assert(m.ids[k2] == current);
        }
    }
    assert(remove_phase(m1, Seq::empty()) == m1);
    assert(seq![next].drop_last() =~= Seq::<Seq<char>>::empty());
    assert(seq![ok].drop_last() =~= Seq::<bool>::empty());
    assert(add_phase(m1, Seq::<Seq<char>>::empty(), Seq::<bool>::empty()) == m1);
    assert(seq![next].last() == next && seq![ok].last() == ok);
    let m2a = add_phase(m1, seq![next], seq![ok]);
    assert(m2a == add_one(m1, next, ok));
    let m2 = swap_second_frame(m1, next, ok);
    assert(m2.calls.take(m1.calls.len() as int) =~= m1.calls);
}

spec fn n_ids(m: RegistryView) -> int {
    m.ids.len() as int
}

} // verus!
