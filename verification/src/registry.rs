//! A model of the per-alert timer registry: the set of alert ids that
//! currently have a running background timer, and the actions handed to
//! the runtime that owns the real task handles.

use vstd::prelude::*;

use crate::schedule::AlertSchedule;
use crate::schedule::ScheduleView;

verus! {

/// One instruction to the timer runtime: cancel the timer of an id, or
/// spawn a recurring timer from a snapshot of a schedule.
pub enum TimerAction {
    Stop(u64),
    Start(AlertSchedule),
}

/// The mathematical value of a [`TimerAction`].
pub enum TimerActionView {
    Stop(u64),
    Start(ScheduleView),
}

impl View for TimerAction {
    type V = TimerActionView;

    open spec fn view(&self) -> TimerActionView {
        match self {
            TimerAction::Stop(id) => TimerActionView::Stop(*id),
            TimerAction::Start(s) => TimerActionView::Start(s@),
        }
    }
}

impl DeepView for TimerAction {
    type V = TimerActionView;

    open spec fn deep_view(&self) -> TimerActionView {
        self.view()
    }
}

/// The set left after performing one action: `Stop` removes an id,
/// `Start` adds the started schedule's id.
pub open spec fn apply_action(running: Set<u64>, a: TimerActionView) -> Set<u64> {
    match a {
        TimerActionView::Stop(id) => running.remove(id),
        TimerActionView::Start(s) => running.insert(s.id),
    }
}

/// The set left after performing a sequence of actions in order.
pub open spec fn apply_actions(running: Set<u64>, actions: Seq<TimerActionView>) -> Set<u64>
    decreases actions.len(),
{
    if actions.len() == 0 {
        running
    } else {
        apply_actions(apply_action(running, actions[0]), actions.drop_first())
    }
}

/// Performing the actions then one more is performing the last action on
/// the set the others leave.
pub proof fn lemma_apply_actions_push(
    running: Set<u64>,
    actions: Seq<TimerActionView>,
    action: TimerActionView,
)
    ensures
        apply_actions(running, actions.push(action)) == apply_action(
            apply_actions(running, actions),
            action,
        ),
    decreases actions.len(),
{
    if actions.len() == 0 {
        let s1 = actions.push(action);
        assert(s1[0] == action);
        assert(s1.drop_first() =~= Seq::<TimerActionView>::empty());
        assert(apply_actions(running, s1) == apply_actions(
            apply_action(running, action),
            s1.drop_first(),
        ));
        assert(apply_actions(apply_action(running, action), s1.drop_first()) == apply_action(
            running,
            action,
        ));
        assert(apply_actions(running, actions) == running);
    } else {
        assert(actions.push(action)[0] == actions[0]);
        assert(actions.push(action).drop_first() =~= actions.drop_first().push(action));
        lemma_apply_actions_push(apply_action(running, actions[0]), actions.drop_first(), action);
    }
}

/// The ids with a running timer. The real task handles are owned by the
/// runtime around the daemon; this registry is the daemon's book of which
/// ids have one.
pub struct TimerRegistry {
    running: Vec<u64>,
}

impl View for TimerRegistry {
    type V = Set<u64>;

    closed spec fn view(&self) -> Set<u64> {
        self.running@.to_set()
    }
}

impl TimerRegistry {
    /// An empty registry: no timer runs.
    pub fn new() -> (r: TimerRegistry)
        ensures
            r@ =~= Set::<u64>::empty(),
    {
        let r = TimerRegistry { running: Vec::new() };
        proof {
            assert forall|x: u64| !r.running@.to_set().contains(x) by {
                assert(r.running@.len() == 0);
            }
        }
        r
    }

    /// Whether a timer runs for `id`.
    pub fn contains(&self, id: u64) -> (b: bool)
        ensures
            b == self@.contains(id),
    {
        let n = self.running.len();
        let mut i: usize = 0;
        while i < n
            invariant
                n == self.running.len(),
                i <= n,
                forall|p: int| 0 <= p < i ==> self.running@[p] != id,
            decreases n - i,
        {
            if self.running[i] == id {
                proof {
                    assert(self.running@.contains(id));
                }
                return true;
            }
            i += 1;
        }
        proof {
            assert(!self.running@.contains(id));
        }
        false
    }

    /// Records that a timer now runs for `id`.
    pub fn note_started(&mut self, id: u64)
        ensures
            final(self)@ =~= old(self)@.insert(id),
    {
        let present = self.contains(id);
        if !present {
            let ghost before = self.running@;
            self.running.push(id);
            proof {
                assert forall|x: u64| self.running@.contains(x) implies (before.contains(x) || x
                    == id) by {
                    let k = choose|k: int|
                        0 <= k < self.running@.len() && self.running@[k] == x;
                    if k < before.len() {
                        assert(before[k] == x);
                    }
                }
                assert forall|x: u64| before.contains(x) implies self.running@.contains(x) by {
                    let k = choose|k: int| 0 <= k < before.len() && before[k] == x;
                    assert(self.running@[k] == x);
                }
                assert(self.running@[before.len() as int] == id);
                assert(self.running@.contains(id));
            }
        }
    }

    /// Records that no timer runs for `id` any more; a no-op when none does.
    pub fn note_stopped(&mut self, id: u64)
        ensures
            final(self)@ =~= old(self)@.remove(id),
    {
        let ghost orig = self.running@;
        let mut kept: Vec<u64> = Vec::new();
        let n = self.running.len();
        let mut i: usize = 0;
        while i < n
            invariant
                n == orig.len(),
                self.running@ == orig,
                i <= n,
                forall|x: u64| #[trigger]
                    kept@.contains(x) <==> (orig.take(i as int).contains(x) && x != id),
            decreases n - i,
        {
            let ghost kept_before = kept@;
            if self.running[i] != id {
                kept.push(self.running[i]);
            }
            proof {
                let taken = orig.take(i + 1);
                assert(taken.drop_last() =~= orig.take(i as int));
                assert(taken.last() == orig[i as int]);
                assert forall|x: u64| #[trigger] kept@.contains(x) implies (taken.contains(x) && x
                    != id) by {
                    let k = choose|k: int| 0 <= k < kept@.len() && kept@[k] == x;
                    if k < kept_before.len() {
                        assert(kept_before[k] == x);
                        assert(kept_before.contains(x));
                        let m = choose|m: int|
                            0 <= m < orig.take(i as int).len() && orig.take(i as int)[m] == x;
                        assert(taken[m] == x);
                    } else {
                        assert(x == orig[i as int]);
                        assert(taken[i as int] == x);
                    }
                }
                assert forall|x: u64| taken.contains(x) && x != id implies #[trigger] kept@.contains(
                    x,
                ) by {
                    let k = choose|k: int| 0 <= k < taken.len() && taken[k] == x;
                    if k < i {
                        assert(orig.take(i as int)[k] == x);
                        assert(orig.take(i as int).contains(x));
                        assert(kept_before.contains(x));
                        let m = choose|m: int|
                            0 <= m < kept_before.len() && kept_before[m] == x;
                        assert(kept@[m] == x);
                    } else {
                        assert(x == orig[i as int]);
                        assert(kept@[kept@.len() - 1] == x);
                    }
                }
            }
            i += 1;
        }
        proof {
            assert(orig.take(n as int) =~= orig);
        }
        self.running = kept;
        proof {
            assert(final(self)@ =~= old(self)@.remove(id));
        }
    }

    /// Forgets every running timer; used only at shutdown.
    pub fn stop_all(&mut self)
        ensures
            final(self)@ =~= Set::<u64>::empty(),
    {
        self.running = Vec::new();
        proof {
            assert forall|x: u64| !self.running@.to_set().contains(x) by {
                assert(self.running@.len() == 0);
            }
        }
    }

    /// Performs one action on the book: the set afterwards is
    /// [`apply_action`] of the set before.
    pub fn apply(&mut self, action: &TimerAction)
        ensures
            final(self)@ =~= apply_action(old(self)@, action@),
    {
        match action {
            TimerAction::Stop(id) => self.note_stopped(*id),
            TimerAction::Start(s) => self.note_started(s.id),
        }
    }
}

} // verus!
