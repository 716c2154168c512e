//! The library's laws: proofs that each committed operation preserves the
//! daemon invariant, that stopping twice and restarting are harmless, and
//! that racing updates compose to the last writer's fields.

use vstd::prelude::*;

use crate::handler::daemon_wf;
use crate::registry::TimerActionView;
use crate::registry::apply_actions;
use crate::schedule::ScheduleView;
use crate::schedule::with_fields;
use crate::schedule::with_stopped;
use crate::store::contains_id;
use crate::store::lemma_max_id_ge_all;
use crate::store::spec_max_id;
use crate::store::store_wf;

verus! {

/// The id `Add` assigns is strictly greater than every id already in the
/// collection, so ids assigned by a run of `Add` operations strictly
/// increase; after removing the largest id, that id can be assigned again.
pub proof fn lemma_assigned_id_exceeds_all(vs: Seq<ScheduleView>)
    requires
        spec_max_id(vs) < u64::MAX,
    ensures
        forall|i: int| 0 <= i < vs.len() ==> #[trigger] vs[i].id < spec_max_id(vs) + 1,
{
    lemma_max_id_ge_all(vs);
}

/// The set an action sequence of one element leaves.
proof fn lemma_apply_one(running: Set<u64>, a: TimerActionView)
    ensures
        apply_actions(running, seq![a]) == crate::registry::apply_action(running, a),
{
    assert(seq![a][0] == a);
    assert(seq![a].drop_first() =~= Seq::<TimerActionView>::empty());
    assert(apply_actions(crate::registry::apply_action(running, a), seq![a].drop_first())
        == crate::registry::apply_action(running, a));
}

/// The set an action sequence of two elements leaves.
proof fn lemma_apply_two(running: Set<u64>, a: TimerActionView, b: TimerActionView)
    ensures
        apply_actions(running, seq![a, b]) == crate::registry::apply_action(
            crate::registry::apply_action(running, a),
            b,
        ),
{
    assert(seq![a, b][0] == a);
    assert(seq![a, b].drop_first() =~= seq![b]);
    lemma_apply_one(crate::registry::apply_action(running, a), b);
}

/// `Stop` on an already-stopped schedule succeeds and leaves the daemon
/// state unchanged: the collection keeps its value and cancelling the
/// absent timer leaves the running set as it was.
pub proof fn lemma_stop_idempotent(vs: Seq<ScheduleView>, running: Set<u64>, i: int)
    requires
        daemon_wf(vs, running),
        0 <= i < vs.len(),
        vs[i].stopped,
    ensures
        vs.update(i, with_stopped(vs[i], true)) == vs,
        apply_actions(running, seq![TimerActionView::Stop(vs[i].id)]) == running,
{
    assert(vs.update(i, with_stopped(vs[i], true)) =~= vs);
    assert(!running.contains(vs[i].id));
    lemma_apply_one(running, TimerActionView::Stop(vs[i].id));
    assert(running.remove(vs[i].id) =~= running);
}

/// `Start` on an already-started schedule restarts its timer without
/// changing the schedule's fields: the collection keeps its value and the
/// cancel-then-start pair leaves the running set as it was.
pub proof fn lemma_start_restarts(vs: Seq<ScheduleView>, running: Set<u64>, i: int)
    requires
        daemon_wf(vs, running),
        0 <= i < vs.len(),
        !vs[i].stopped,
    ensures
        vs.update(i, with_stopped(vs[i], false)) == vs,
        apply_actions(
            running,
            seq![
                TimerActionView::Stop(vs[i].id),
                TimerActionView::Start(with_stopped(vs[i], false)),
            ],
        ) == running,
{
    assert(vs.update(i, with_stopped(vs[i], false)) =~= vs);
    assert(running.contains(vs[i].id));
    lemma_apply_two(
        running,
        TimerActionView::Stop(vs[i].id),
        TimerActionView::Start(with_stopped(vs[i], false)),
    );
    assert(running.remove(vs[i].id).insert(vs[i].id) =~= running);
}

/// Two updates of the same schedule, applied one after the other as the
/// exclusive guard serialises them, leave exactly the second writer's
/// fields: no mix of the two survives.
pub proof fn lemma_racing_updates_last_writer_wins(
    vs: Seq<ScheduleView>,
    i: int,
    title1: Seq<char>,
    message1: Seq<char>,
    interval1: u64,
    title2: Seq<char>,
    message2: Seq<char>,
    interval2: u64,
)
    requires
        0 <= i < vs.len(),
    ensures
        vs.update(i, with_fields(vs[i], title1, message1, interval1)).update(
            i,
            with_fields(
                vs.update(i, with_fields(vs[i], title1, message1, interval1))[i],
                title2,
                message2,
                interval2,
            ),
        ) == vs.update(i, with_fields(vs[i], title2, message2, interval2)),
{
    let once = vs.update(i, with_fields(vs[i], title1, message1, interval1));
    assert(once[i] == with_fields(vs[i], title1, message1, interval1));
    assert(once.update(i, with_fields(once[i], title2, message2, interval2)) =~= vs.update(
        i,
        with_fields(vs[i], title2, message2, interval2),
    ));
}

/// After a committed `Add` the daemon invariant holds again: the new
/// schedule's timer runs, and no other id's standing changed.
pub proof fn lemma_add_preserves_daemon_wf(
    vs: Seq<ScheduleView>,
    running: Set<u64>,
    created: ScheduleView,
)
    requires
        daemon_wf(vs, running),
        spec_max_id(vs) < u64::MAX,
        created.id == spec_max_id(vs) + 1,
        !created.stopped,
    ensures
        daemon_wf(vs.push(created), apply_actions(running, seq![TimerActionView::Start(created)])),
{
    lemma_max_id_ge_all(vs);
    lemma_apply_one(running, TimerActionView::Start(created));
    let vs2 = vs.push(created);
    let r2 = running.insert(created.id);
    assert forall|p: int, q: int| 0 <= p < q < vs2.len() implies #[trigger] vs2[p].id
        != #[trigger] vs2[q].id by {
        if q == vs2.len() - 1 {
            assert(vs2[p] == vs[p]);
            assert(vs[p].id <= spec_max_id(vs));
        } else {
            assert(vs2[p] == vs[p]);
            assert(vs2[q] == vs[q]);
        }
    }
    assert forall|p: int| 0 <= p < vs2.len() implies #[trigger] vs2[p].id >= 1 by {
        if p < vs2.len() - 1 {
            assert(vs2[p] == vs[p]);
        }
    }
    assert forall|i: int| 0 <= i < vs2.len() implies (r2.contains(#[trigger] vs2[i].id) <==> !vs2[i].stopped) by {
        if i < vs.len() {
            assert(vs2[i] == vs[i]);
            assert(vs[i].id <= spec_max_id(vs));
            assert(vs[i].id != created.id);
        } else {
            assert(vs2[i] == created);
        }
    }
    assert forall|id: u64| #[trigger] r2.contains(id) implies contains_id(vs2, id) by {
        if id == created.id {
            assert(vs2[vs.len() as int].id == id);
        } else {
            assert(running.contains(id));
            let k = choose|k: int| 0 <= k < vs.len() && #[trigger] vs[k].id == id;
            assert(vs2[k].id == id);
        }
    }
}

/// After a committed `Remove` the daemon invariant holds again: the
/// removed id's timer is gone with its schedule, the rest are untouched.
pub proof fn lemma_remove_preserves_daemon_wf(vs: Seq<ScheduleView>, running: Set<u64>, i: int)
    requires
        daemon_wf(vs, running),
        0 <= i < vs.len(),
    ensures
        daemon_wf(
            vs.remove(i),
            apply_actions(running, seq![TimerActionView::Stop(vs[i].id)]),
        ),
{
    lemma_apply_one(running, TimerActionView::Stop(vs[i].id));
    let id = vs[i].id;
    let vs2 = vs.remove(i);
    let r2 = running.remove(id);
    assert forall|p: int, q: int| 0 <= p < q < vs2.len() implies #[trigger] vs2[p].id
        != #[trigger] vs2[q].id by {
        let p0: int = if p < i { p } else { p + 1 };
        let q0: int = if q < i { q } else { q + 1 };
        assert(vs2[p] == vs[p0]);
        assert(vs2[q] == vs[q0]);
    }
    assert forall|p: int| 0 <= p < vs2.len() implies #[trigger] vs2[p].id >= 1 by {
        let p0: int = if p < i { p } else { p + 1 };
        assert(vs2[p] == vs[p0]);
    }
    assert forall|j: int| 0 <= j < vs2.len() implies (r2.contains(#[trigger] vs2[j].id) <==> !vs2[j].stopped) by {
        let j0: int = if j < i { j } else { j + 1 };
        assert(vs2[j] == vs[j0]);
        assert(vs[j0].id != id);
    }
    assert forall|x: u64| #[trigger] r2.contains(x) implies contains_id(vs2, x) by {
        assert(running.contains(x));
        let k = choose|k: int| 0 <= k < vs.len() && #[trigger] vs[k].id == x;
        assert(k != i);
        let k2: int = if k < i { k } else { k - 1 };
        assert(vs2[k2].id == x);
    }
}

/// After a committed `Stop` the daemon invariant holds again: the id's
/// timer no longer runs and its schedule is marked stopped.
pub proof fn lemma_stop_preserves_daemon_wf(vs: Seq<ScheduleView>, running: Set<u64>, i: int)
    requires
        daemon_wf(vs, running),
        0 <= i < vs.len(),
    ensures
        daemon_wf(
            vs.update(i, with_stopped(vs[i], true)),
            apply_actions(running, seq![TimerActionView::Stop(vs[i].id)]),
        ),
{
    lemma_apply_one(running, TimerActionView::Stop(vs[i].id));
    let id = vs[i].id;
    let vs2 = vs.update(i, with_stopped(vs[i], true));
    let r2 = running.remove(id);
    assert forall|p: int, q: int| 0 <= p < q < vs2.len() implies #[trigger] vs2[p].id
        != #[trigger] vs2[q].id by {
        assert(vs2[p].id == vs[p].id);
        assert(vs2[q].id == vs[q].id);
    }
    assert forall|p: int| 0 <= p < vs2.len() implies #[trigger] vs2[p].id >= 1 by {
        assert(vs2[p].id == vs[p].id);
    }
    assert forall|j: int| 0 <= j < vs2.len() implies (r2.contains(#[trigger] vs2[j].id) <==> !vs2[j].stopped) by {
        if j != i {
            assert(vs2[j] == vs[j]);
            assert(vs[j].id != id);
        }
    }
    assert forall|x: u64| #[trigger] r2.contains(x) implies contains_id(vs2, x) by {
        assert(running.contains(x));
        let k = choose|k: int| 0 <= k < vs.len() && #[trigger] vs[k].id == x;
        assert(vs2[k].id == x);
    }
}

/// After a committed `Start` the daemon invariant holds again: the id's
/// timer runs and its schedule is marked not stopped.
pub proof fn lemma_start_preserves_daemon_wf(vs: Seq<ScheduleView>, running: Set<u64>, i: int)
    requires
        daemon_wf(vs, running),
        0 <= i < vs.len(),
    ensures
        daemon_wf(
            vs.update(i, with_stopped(vs[i], false)),
            apply_actions(
                running,
                seq![
                    TimerActionView::Stop(vs[i].id),
                    TimerActionView::Start(with_stopped(vs[i], false)),
                ],
            ),
        ),
{
    lemma_apply_two(
        running,
        TimerActionView::Stop(vs[i].id),
        TimerActionView::Start(with_stopped(vs[i], false)),
    );
    let id = vs[i].id;
    let vs2 = vs.update(i, with_stopped(vs[i], false));
    let r2 = running.remove(id).insert(id);
    assert forall|p: int, q: int| 0 <= p < q < vs2.len() implies #[trigger] vs2[p].id
        != #[trigger] vs2[q].id by {
        assert(vs2[p].id == vs[p].id);
        assert(vs2[q].id == vs[q].id);
    }
    assert forall|p: int| 0 <= p < vs2.len() implies #[trigger] vs2[p].id >= 1 by {
        assert(vs2[p].id == vs[p].id);
    }
    assert forall|j: int| 0 <= j < vs2.len() implies (r2.contains(#[trigger] vs2[j].id) <==> !vs2[j].stopped) by {
        if j != i {
            assert(vs2[j] == vs[j]);
            assert(vs[j].id != id);
        }
    }
    assert forall|x: u64| #[trigger] r2.contains(x) implies contains_id(vs2, x) by {
        if x == id {
            assert(vs2[i].id == x);
        } else {
            assert(running.contains(x));
            let k = choose|k: int| 0 <= k < vs.len() && #[trigger] vs[k].id == x;
            assert(vs2[k].id == x);
        }
    }
}

/// After a committed `Update` the daemon invariant holds again, whether
/// the schedule was stopped (no timer action) or running (its timer is
/// cancelled and restarted with the new fields).
pub proof fn lemma_update_preserves_daemon_wf(
    vs: Seq<ScheduleView>,
    running: Set<u64>,
    i: int,
    title: Seq<char>,
    message: Seq<char>,
    interval: u64,
)
    requires
        daemon_wf(vs, running),
        0 <= i < vs.len(),
    ensures
        daemon_wf(
            vs.update(i, with_fields(vs[i], title, message, interval)),
            apply_actions(
                running,
                if vs[i].stopped {
                    Seq::<TimerActionView>::empty()
                } else {
                    seq![
                        TimerActionView::Stop(vs[i].id),
                        TimerActionView::Start(with_fields(vs[i], title, message, interval)),
                    ]
                },
            ),
        ),
{
    let id = vs[i].id;
    let updated = with_fields(vs[i], title, message, interval);
    let vs2 = vs.update(i, updated);
    let r2 = if vs[i].stopped {
        running
    } else {
        running.remove(id).insert(id)
    };
    if vs[i].stopped {
        assert(apply_actions(running, Seq::<TimerActionView>::empty()) == running);
    } else {
        lemma_apply_two(running, TimerActionView::Stop(id), TimerActionView::Start(updated));
    }
    assert forall|p: int, q: int| 0 <= p < q < vs2.len() implies #[trigger] vs2[p].id
        != #[trigger] vs2[q].id by {
        assert(vs2[p].id == vs[p].id);
        assert(vs2[q].id == vs[q].id);
    }
    assert forall|p: int| 0 <= p < vs2.len() implies #[trigger] vs2[p].id >= 1 by {
        assert(vs2[p].id == vs[p].id);
    }
    assert forall|j: int| 0 <= j < vs2.len() implies (r2.contains(#[trigger] vs2[j].id) <==> !vs2[j].stopped) by {
        if j != i {
            assert(vs2[j] == vs[j]);
            assert(vs[j].id != id);
        }
    }
    assert forall|x: u64| #[trigger] r2.contains(x) implies contains_id(vs2, x) by {
        if x == id {
            assert(vs2[i].id == x);
        } else {
            assert(running.contains(x));
            let k = choose|k: int| 0 <= k < vs.len() && #[trigger] vs[k].id == x;
            assert(vs2[k].id == x);
        }
    }
}

/// After committing the startup actions over an empty running set, the
/// daemon invariant holds: exactly the not-stopped schedules have timers.
pub proof fn lemma_startup_establishes_daemon_wf(vs: Seq<ScheduleView>)
    requires
        store_wf(vs),
    ensures
        daemon_wf(
            vs,
            apply_actions(Set::<u64>::empty(), crate::handler::spec_startup_actions(vs)),
        ),
{
    let r = apply_actions(Set::<u64>::empty(), crate::handler::spec_startup_actions(vs));
    lemma_startup_running_set(vs, Set::<u64>::empty());
    assert forall|i: int| 0 <= i < vs.len() implies (r.contains(#[trigger] vs[i].id) <==> !vs[i].stopped) by {
        let x = vs[i].id;
        assert(r.contains(x) <==> (Set::<u64>::empty().contains(x) || exists|k: int|
            0 <= k < vs.len() && #[trigger] vs[k].id == x && !vs[k].stopped));
        assert(!Set::<u64>::empty().contains(x));
        if !vs[i].stopped {
            assert(0 <= i < vs.len() && vs[i].id == x && !vs[i].stopped);
            assert(r.contains(x));
        } else if r.contains(x) {
            let k = choose|k: int|
                0 <= k < vs.len() && #[trigger] vs[k].id == x && !vs[k].stopped;
            if k < i {
                assert(vs[k].id != vs[i].id);
            } else if i < k {
                assert(vs[i].id != vs[k].id);
            }
            assert(false);
        }
    }
    assert forall|x: u64| #[trigger] r.contains(x) implies contains_id(vs, x) by {
        assert(!Set::<u64>::empty().contains(x));
        let k = choose|k: int| 0 <= k < vs.len() && #[trigger] vs[k].id == x && !vs[k].stopped;
        assert(vs[k].id == x);
    }
}

/// The startup actions, applied to any running set, leave the set of ids
/// that either were running or belong to a not-stopped schedule.
proof fn lemma_startup_running_set(vs: Seq<ScheduleView>, running: Set<u64>)
    ensures
        forall|x: u64|
            #[trigger] apply_actions(running, crate::handler::spec_startup_actions(vs)).contains(x)
                <==> (running.contains(x) || exists|k: int|
                0 <= k < vs.len() && #[trigger] vs[k].id == x && !vs[k].stopped),
    decreases vs.len(),
{
    if vs.len() == 0 {
        assert(apply_actions(running, crate::handler::spec_startup_actions(vs)) == running);
    } else {
        let front = vs.drop_last();
        let last = vs.last();
        lemma_startup_running_set(front, running);
        let acts_front = crate::handler::spec_startup_actions(front);
        let r_front = apply_actions(running, acts_front);
        if last.stopped {
            assert(crate::handler::spec_startup_actions(vs) =~= acts_front);
            assert forall|x: u64|
                apply_actions(running, crate::handler::spec_startup_actions(vs)).contains(x) implies (
            running.contains(x) || exists|k: int|
                0 <= k < vs.len() && #[trigger] vs[k].id == x && !vs[k].stopped) by {
                if !running.contains(x) {
                    let k = choose|k: int|
                        0 <= k < front.len() && #[trigger] front[k].id == x && !front[k].stopped;
                    assert(vs[k].id == x && !vs[k].stopped);
                }
            }
            assert forall|x: u64|
                (running.contains(x) || exists|k: int|
                    0 <= k < vs.len() && #[trigger] vs[k].id == x && !vs[k].stopped) implies apply_actions(
                running,
                crate::handler::spec_startup_actions(vs),
            ).contains(x) by {
                if !running.contains(x) {
                    let k = choose|k: int|
                        0 <= k < vs.len() && #[trigger] vs[k].id == x && !vs[k].stopped;
                    assert(k < front.len());
                    assert(front[k].id == x && !front[k].stopped);
                }
            }
        } else {
            assert(crate::handler::spec_startup_actions(vs) =~= acts_front.push(
                TimerActionView::Start(last),
            ));
            crate::registry::lemma_apply_actions_push(
                running,
                acts_front,
                TimerActionView::Start(last),
            );
            let r_all = r_front.insert(last.id);
            assert forall|x: u64| r_all.contains(x) implies (running.contains(x) || exists|k: int|
                0 <= k < vs.len() && #[trigger] vs[k].id == x && !vs[k].stopped) by {
                if x == last.id {
                    assert(vs[vs.len() - 1].id == x && !vs[vs.len() - 1].stopped);
                } else if !running.contains(x) {
                    let k = choose|k: int|
                        0 <= k < front.len() && #[trigger] front[k].id == x && !front[k].stopped;
                    assert(vs[k].id == x && !vs[k].stopped);
                }
            }
            assert forall|x: u64|
                (running.contains(x) || exists|k: int|
                    0 <= k < vs.len() && #[trigger] vs[k].id == x && !vs[k].stopped) implies r_all.contains(
                x,
            ) by {
                if !running.contains(x) {
                    let k = choose|k: int|
                        0 <= k < vs.len() && #[trigger] vs[k].id == x && !vs[k].stopped;
                    if k < vs.len() - 1 {
                        assert(front[k].id == x && !front[k].stopped);
                        assert(r_front.contains(x));
                    }
                }
            }
        }
    }
}

} // verus!
