//! The request handler: interprets one decoded request against the
//! schedule collection and the timer registry, producing the response and
//! the timer actions the runtime must perform.
//!
//! Every state-changing request runs in two steps. [`Daemon::handle_request`]
//! applies the in-memory mutation and hands back the response together with
//! the required timer actions; the caller then persists the collection and,
//! only when the save succeeded, performs the actions and records them with
//! [`Daemon::commit_timer_actions`]. When the save failed the caller answers
//! with [`crate::protocol::save_error_response`] instead and performs no
//! timer action, so the in-memory change stays visible but the client is
//! told durability was not achieved.

use vstd::prelude::*;

use crate::protocol::Request;
use crate::protocol::Response;
use crate::protocol::not_found_message;
use crate::protocol::spec_not_found_message;
use crate::registry::TimerAction;
use crate::registry::TimerActionView;
use crate::registry::TimerRegistry;
use crate::registry::apply_actions;
use crate::registry::lemma_apply_actions_push;
use crate::schedule::AlertSchedule;
use crate::schedule::ScheduleError;
use crate::schedule::ScheduleView;
use crate::schedule::message_ok;
use crate::schedule::title_ok;
use crate::schedule::with_fields;
use crate::schedule::with_stopped;
use crate::store::ScheduleStore;
use crate::store::contains_id;
use crate::store::lemma_max_id_ge_all;
use crate::store::spec_max_id;
use crate::store::store_wf;

verus! {

/// What one request did: `Done` answers at once and changed nothing;
/// `Mutated` changed the collection, which must now be persisted, and on a
/// successful save the timer actions performed and committed.
pub enum Applied {
    Done { response: Response },
    Mutated { response: Response, actions: Vec<TimerAction> },
}

/// The daemon's shared state: the schedule collection and the book of
/// running timers. The caller serialises access to it, one request at a
/// time, so every contract here describes one full exclusive window.
pub struct Daemon {
    pub store: ScheduleStore,
    pub timers: TimerRegistry,
}

/// The daemon invariant: the collection invariant holds, an id has a
/// running timer exactly when its schedule exists and is not stopped, and
/// no timer runs for an id without a schedule.
pub open spec fn daemon_wf(store: Seq<ScheduleView>, running: Set<u64>) -> bool {
    &&& store_wf(store)
    &&& forall|i: int|
        0 <= i < store.len() ==> (running.contains(#[trigger] store[i].id) <==> !store[i].stopped)
    &&& forall|id: u64| #[trigger] running.contains(id) ==> contains_id(store, id)
}

/// The timer actions that bring an idle runtime up at daemon start: one
/// `Start` per not-stopped schedule, in collection order.
pub open spec fn spec_startup_actions(vs: Seq<ScheduleView>) -> Seq<TimerActionView>
    decreases vs.len(),
{
    if vs.len() == 0 {
        Seq::<TimerActionView>::empty()
    } else {
        spec_startup_actions(vs.drop_last()) + (if vs.last().stopped {
            Seq::<TimerActionView>::empty()
        } else {
            seq![TimerActionView::Start(vs.last())]
        })
    }
}

impl Daemon {
    /// A daemon over a loaded collection, with no timer running yet.
    pub fn new(store: ScheduleStore) -> (d: Daemon)
        ensures
            d.store@ == store@,
            d.timers@ =~= Set::<u64>::empty(),
    {
        Daemon { store, timers: TimerRegistry::new() }
    }

    /// The actions that start a timer for every not-stopped schedule, in
    /// order; performed and committed once at startup.
    pub fn startup_actions(&self) -> (actions: Vec<TimerAction>)
        ensures
            actions.deep_view() == spec_startup_actions(self.store@),
    {
        let mut actions: Vec<TimerAction> = Vec::new();
        let n = self.store.len();
        let mut i: usize = 0;
        while i < n
            invariant
                n == self.store@.len(),
                i <= n,
                actions.deep_view() =~= spec_startup_actions(self.store@.take(i as int)),
            decreases n - i,
        {
            let ghost before = actions.deep_view();
            let s = self.store.get(i);
            if !s.stopped {
                actions.push(TimerAction::Start(s.clone()));
            }
            proof {
                assert(self.store@.take(i + 1).drop_last() =~= self.store@.take(i as int));
                assert(self.store@.take(i + 1).last() == self.store@[i as int]);
                if !s.stopped {
                    assert(actions.deep_view() =~= before.push(TimerActionView::Start(s@)));
                    assert(before + seq![TimerActionView::Start(self.store@[i as int])]
                        =~= before.push(TimerActionView::Start(s@)));
                } else {
                    assert(spec_startup_actions(self.store@.take(i + 1)) =~= before);
                }
            }
            i += 1;
        }
        proof {
            assert(self.store@.take(n as int) =~= self.store@);
        }
        actions
    }

    /// Records performed timer actions in the book, in order; the
    /// collection is untouched.
    pub fn commit_timer_actions(&mut self, actions: &Vec<TimerAction>)
        ensures
            final(self).store@ == old(self).store@,
            final(self).timers@ =~= apply_actions(old(self).timers@, actions.deep_view()),
    {
        let n = actions.len();
        let mut i: usize = 0;
        while i < n
            invariant
                n == actions.deep_view().len(),
                n == actions.len(),
                i <= n,
                self.store@ == old(self).store@,
                self.timers@ =~= apply_actions(
                    old(self).timers@,
                    actions.deep_view().take(i as int),
                ),
            decreases n - i,
        {
            let ghost done = actions.deep_view().take(i as int);
            self.timers.apply(&actions[i]);
            proof {
                lemma_apply_actions_push(old(self).timers@, done, actions.deep_view()[i as int]);
                assert(done.push(actions.deep_view()[i as int]) =~= actions.deep_view().take(
                    i + 1,
                ));
            }
            i += 1;
        }
        proof {
            assert(actions.deep_view().take(n as int) =~= actions.deep_view());
        }
    }

    /// Answers `List`: a snapshot of the whole collection; no mutation.
    pub fn op_list(&self) -> (r: Response)
        ensures
            r matches Response::Listed { schedules } && schedules.deep_view() == self.store@,
    {
        Response::Listed { schedules: self.store.snapshot() }
    }

    /// Answers `Add`: validates, assigns the next id (one more than the
    /// largest current id), appends, and asks for the new timer to start.
    pub fn op_add(&mut self, title: String, message: String, interval: u64) -> (a: Applied)
        requires
            spec_max_id(old(self).store@) < u64::MAX,
        ensures
            final(self).timers@ == old(self).timers@,
            !title_ok(title@) ==> final(self).store@ == old(self).store@ && (a
                matches Applied::Done { response } && response matches Response::Error { message }
                && message@ == ScheduleError::TitleTooLong.spec_message()),
            title_ok(title@) && !message_ok(message@) ==> final(self).store@ == old(self).store@
                && (a matches Applied::Done { response } && response matches Response::Error {
                message,
            } && message@ == ScheduleError::MessageTooLong.spec_message()),
            title_ok(title@) && message_ok(message@) ==> {
                let created = ScheduleView {
                    id: (spec_max_id(old(self).store@) + 1) as u64,
                    title: title@,
                    message: message@,
                    repeat_interval_in_seconds: interval,
                    stopped: false,
                };
                &&& final(self).store@ =~= old(self).store@.push(created)
                &&& a matches Applied::Mutated { response, actions }
                &&& response matches Response::Created { schedule } && schedule@ == created
                &&& actions.deep_view() =~= seq![TimerActionView::Start(created)]
            },
            store_wf(old(self).store@) && title_ok(title@) && message_ok(message@) ==> store_wf(
                final(self).store@,
            ),
    {
        match AlertSchedule::new(title, message, interval) {
            Err(e) => Applied::Done { response: Response::Error { message: e.message() } },
            Ok(schedule) => {
                let next_id = self.store.max_id() + 1;
                let assigned = AlertSchedule {
                    id: next_id,
                    title: schedule.title,
                    message: schedule.message,
                    repeat_interval_in_seconds: schedule.repeat_interval_in_seconds,
                    stopped: false,
                };
                self.store.push(assigned.clone());
                proof {
                    if store_wf(old(self).store@) {
                        lemma_max_id_ge_all(old(self).store@);
                        let vs = final(self).store@;
                        assert forall|p: int, q: int|
                            0 <= p < q < vs.len() implies #[trigger] vs[p].id != #[trigger] vs[q].id by {
                            if q == vs.len() - 1 {
                                assert(vs[p] == old(self).store@[p]);
                                assert(old(self).store@[p].id <= spec_max_id(old(self).store@));
                            }
                        }
                        assert forall|p: int| 0 <= p < vs.len() implies #[trigger] vs[p].id
                            >= 1 by {
                            if p < vs.len() - 1 {
                                assert(vs[p] == old(self).store@[p]);
                            }
                        }
                    }
                }
                let response = Response::Created { schedule: assigned.clone() };
                Applied::Mutated { response, actions: vec![TimerAction::Start(assigned)] }
            },
        }
    }

    /// Answers `Update`: overwrites the client-settable fields in place;
    /// when the schedule is not stopped its timer is restarted with the
    /// new values, and when it is stopped no timer is touched.
    pub fn op_update(&mut self, id: u64, title: String, message: String, interval: u64) -> (a:
        Applied)
        ensures
            final(self).timers@ == old(self).timers@,
            !contains_id(old(self).store@, id) ==> final(self).store@ == old(self).store@ && (a
                matches Applied::Done { response } && response matches Response::Error { message }
                && message@ == spec_not_found_message(id)),
            contains_id(old(self).store@, id) ==> exists|i: int|
                #![trigger old(self).store@[i]]
                {
                    let updated = with_fields(old(self).store@[i], title@, message@, interval);
                    &&& 0 <= i < old(self).store@.len()
                    &&& old(self).store@[i].id == id
                    &&& final(self).store@ =~= old(self).store@.update(i, updated)
                    &&& a matches Applied::Mutated { response, actions }
                    &&& response matches Response::Updated { schedule } && schedule@ == updated
                    &&& actions.deep_view() =~= (if old(self).store@[i].stopped {
                        Seq::<TimerActionView>::empty()
                    } else {
                        seq![TimerActionView::Stop(id), TimerActionView::Start(updated)]
                    })
                },
            store_wf(old(self).store@) ==> store_wf(final(self).store@),
    {
        match self.store.find_index(id) {
            None => Applied::Done {
                response: Response::Error { message: not_found_message(id) },
            },
            Some(i) => {
                let ghost oldvs = self.store@;
                let was_stopped = self.store.get(i).stopped;
                let current = self.store.get(i);
                let updated = AlertSchedule {
                    id: current.id,
                    title,
                    message,
                    repeat_interval_in_seconds: interval,
                    stopped: was_stopped,
                };
                self.store.set(i, updated.clone());
                proof {
                    assert(final(self).store@ =~= oldvs.update(
                        i as int,
                        with_fields(oldvs[i as int], title@, message@, interval),
                    ));
                    if store_wf(oldvs) {
                        let vs = final(self).store@;
                        assert forall|p: int, q: int|
                            0 <= p < q < vs.len() implies #[trigger] vs[p].id != #[trigger] vs[q].id by {
                            assert(vs[p].id == oldvs[p].id);
                            assert(vs[q].id == oldvs[q].id);
                        }
                        assert forall|p: int| 0 <= p < vs.len() implies #[trigger] vs[p].id
                            >= 1 by {
                            assert(vs[p].id == oldvs[p].id);
                        }
                    }
                }
                let actions: Vec<TimerAction> = if was_stopped {
                    Vec::new()
                } else {
                    vec![TimerAction::Stop(id), TimerAction::Start(updated.clone())]
                };
                let response = Response::Updated { schedule: updated };
                Applied::Mutated { response, actions }
            },
        }
    }

    /// Answers `Remove`: deletes the schedule, keeping the order of the
    /// rest, and asks for its timer to be cancelled.
    pub fn op_remove(&mut self, id: u64) -> (a: Applied)
        ensures
            final(self).timers@ == old(self).timers@,
            !contains_id(old(self).store@, id) ==> final(self).store@ == old(self).store@ && (a
                matches Applied::Done { response } && response matches Response::Error { message }
                && message@ == spec_not_found_message(id)),
            contains_id(old(self).store@, id) ==> exists|i: int|
                #![trigger old(self).store@[i]]
                {
                    &&& 0 <= i < old(self).store@.len()
                    &&& old(self).store@[i].id == id
                    &&& final(self).store@ =~= old(self).store@.remove(i)
                    &&& a matches Applied::Mutated { response, actions }
                    &&& response matches Response::Removed { id: removed } && removed == id
                    &&& actions.deep_view() =~= seq![TimerActionView::Stop(id)]
                },
            store_wf(old(self).store@) ==> store_wf(final(self).store@),
    {
        match self.store.find_index(id) {
            None => Applied::Done {
                response: Response::Error { message: not_found_message(id) },
            },
            Some(i) => {
                let ghost oldvs = self.store@;
                self.store.remove_at(i);
                proof {
                    if store_wf(oldvs) {
                        let vs = final(self).store@;
                        assert forall|p: int, q: int|
                            0 <= p < q < vs.len() implies #[trigger] vs[p].id != #[trigger] vs[q].id by {
                            let p0: int = if p < i { p } else { p + 1 };
                            let q0: int = if q < i { q } else { q + 1 };
                            assert(vs[p] == oldvs[p0]);
                            assert(vs[q] == oldvs[q0]);
                        }
                        assert forall|p: int| 0 <= p < vs.len() implies #[trigger] vs[p].id
                            >= 1 by {
                            let p0: int = if p < i { p } else { p + 1 };
                            assert(vs[p] == oldvs[p0]);
                        }
                    }
                }
                Applied::Mutated {
                    response: Response::Removed { id },
                    actions: vec![TimerAction::Stop(id)],
                }
            },
        }
    }

    /// Answers `Stop`: marks the schedule stopped and asks for its timer
    /// to be cancelled. Stopping an already-stopped schedule succeeds and
    /// changes nothing.
    pub fn op_stop(&mut self, id: u64) -> (a: Applied)
        ensures
            final(self).timers@ == old(self).timers@,
            !contains_id(old(self).store@, id) ==> final(self).store@ == old(self).store@ && (a
                matches Applied::Done { response } && response matches Response::Error { message }
                && message@ == spec_not_found_message(id)),
            contains_id(old(self).store@, id) ==> exists|i: int|
                #![trigger old(self).store@[i]]
                {
                    let updated = with_stopped(old(self).store@[i], true);
                    &&& 0 <= i < old(self).store@.len()
                    &&& old(self).store@[i].id == id
                    &&& final(self).store@ =~= old(self).store@.update(i, updated)
                    &&& a matches Applied::Mutated { response, actions }
                    &&& response matches Response::Stopped { schedule } && schedule@ == updated
                    &&& actions.deep_view() =~= seq![TimerActionView::Stop(id)]
                },
            store_wf(old(self).store@) ==> store_wf(final(self).store@),
    {
        self.set_stopped_flag(id, true)
    }

    /// Answers `Start`: marks the schedule not stopped and asks for a
    /// fresh timer — any old one is cancelled first, so starting an
    /// already-started schedule restarts its timer with its fields intact.
    pub fn op_start(&mut self, id: u64) -> (a: Applied)
        ensures
            final(self).timers@ == old(self).timers@,
            !contains_id(old(self).store@, id) ==> final(self).store@ == old(self).store@ && (a
                matches Applied::Done { response } && response matches Response::Error { message }
                && message@ == spec_not_found_message(id)),
            contains_id(old(self).store@, id) ==> exists|i: int|
                #![trigger old(self).store@[i]]
                {
                    let updated = with_stopped(old(self).store@[i], false);
                    &&& 0 <= i < old(self).store@.len()
                    &&& old(self).store@[i].id == id
                    &&& final(self).store@ =~= old(self).store@.update(i, updated)
                    &&& a matches Applied::Mutated { response, actions }
                    &&& response matches Response::Started { schedule } && schedule@ == updated
                    &&& actions.deep_view() =~= seq![
                        TimerActionView::Stop(id),
                        TimerActionView::Start(updated),
                    ]
                },
            store_wf(old(self).store@) ==> store_wf(final(self).store@),
    {
        self.set_stopped_flag(id, false)
    }

    /// Shared body of `Stop` and `Start`: flips the stopped flag and asks
    /// for the matching timer transition.
    fn set_stopped_flag(&mut self, id: u64, stopped: bool) -> (a: Applied)
        ensures
            final(self).timers@ == old(self).timers@,
            !contains_id(old(self).store@, id) ==> final(self).store@ == old(self).store@ && (a
                matches Applied::Done { response } && response matches Response::Error { message }
                && message@ == spec_not_found_message(id)),
            contains_id(old(self).store@, id) ==> exists|i: int|
                #![trigger old(self).store@[i]]
                {
                    let updated = with_stopped(old(self).store@[i], stopped);
                    &&& 0 <= i < old(self).store@.len()
                    &&& old(self).store@[i].id == id
                    &&& final(self).store@ =~= old(self).store@.update(i, updated)
                    &&& a matches Applied::Mutated { response, actions }
                    &&& (if stopped {
                        response matches Response::Stopped { schedule } && schedule@ == updated
                    } else {
                        response matches Response::Started { schedule } && schedule@ == updated
                    })
                    &&& actions.deep_view() =~= (if stopped {
                        seq![TimerActionView::Stop(id)]
                    } else {
                        seq![TimerActionView::Stop(id), TimerActionView::Start(updated)]
                    })
                },
            store_wf(old(self).store@) ==> store_wf(final(self).store@),
    {
        match self.store.find_index(id) {
            None => Applied::Done {
                response: Response::Error { message: not_found_message(id) },
            },
            Some(i) => {
                let ghost oldvs = self.store@;
                let current = self.store.get(i);
                let updated = AlertSchedule {
                    id: current.id,
                    title: current.title.clone(),
                    message: current.message.clone(),
                    repeat_interval_in_seconds: current.repeat_interval_in_seconds,
                    stopped,
                };
                self.store.set(i, updated.clone());
                proof {
                    assert(final(self).store@ =~= oldvs.update(
                        i as int,
                        with_stopped(oldvs[i as int], stopped),
                    ));
                    if store_wf(oldvs) {
                        let vs = final(self).store@;
                        assert forall|p: int, q: int|
                            0 <= p < q < vs.len() implies #[trigger] vs[p].id != #[trigger] vs[q].id by {
                            assert(vs[p].id == oldvs[p].id);
                            assert(vs[q].id == oldvs[q].id);
                        }
                        assert forall|p: int| 0 <= p < vs.len() implies #[trigger] vs[p].id
                            >= 1 by {
                            assert(vs[p].id == oldvs[p].id);
                        }
                    }
                }
                let actions: Vec<TimerAction> = if stopped {
                    vec![TimerAction::Stop(id)]
                } else {
                    vec![TimerAction::Stop(id), TimerAction::Start(updated.clone())]
                };
                let response = if stopped {
                    Response::Stopped { schedule: updated }
                } else {
                    Response::Started { schedule: updated }
                };
                Applied::Mutated { response, actions }
            },
        }
    }

    /// Interprets one decoded request: the dispatch over the six
    /// operations, each as specified on its own method.
    pub fn handle_request(&mut self, req: Request) -> (a: Applied)
        requires
            req is Add ==> spec_max_id(old(self).store@) < u64::MAX,
        ensures
            final(self).timers@ == old(self).timers@,
            req is List ==> final(self).store@ == old(self).store@ && (a matches Applied::Done {
                response,
            } && response matches Response::Listed { schedules } && schedules.deep_view() == old(
                self,
            ).store@),
            req matches Request::Add { title, message, interval } ==> {
                &&& !title_ok(title@) ==> final(self).store@ == old(self).store@ && (a
                    matches Applied::Done { response } && response matches Response::Error {
                    message,
                } && message@ == ScheduleError::TitleTooLong.spec_message())
                &&& title_ok(title@) && !message_ok(message@) ==> final(self).store@ == old(
                    self,
                ).store@ && (a matches Applied::Done { response } && response
                    matches Response::Error { message } && message@
                    == ScheduleError::MessageTooLong.spec_message())
                &&& title_ok(title@) && message_ok(message@) ==> {
                    let created = ScheduleView {
                        id: (spec_max_id(old(self).store@) + 1) as u64,
                        title: title@,
                        message: message@,
                        repeat_interval_in_seconds: interval,
                        stopped: false,
                    };
                    &&& final(self).store@ =~= old(self).store@.push(created)
                    &&& a matches Applied::Mutated { response, actions }
                    &&& response matches Response::Created { schedule } && schedule@ == created
                    &&& actions.deep_view() =~= seq![TimerActionView::Start(created)]
                }
            },
            req matches Request::Update { id, title, message, interval } ==> {
                &&& !contains_id(old(self).store@, id) ==> final(self).store@ == old(self).store@
                    && (a matches Applied::Done { response } && response matches Response::Error {
                    message,
                } && message@ == spec_not_found_message(id))
                &&& contains_id(old(self).store@, id) ==> exists|i: int|
                    #![trigger old(self).store@[i]]
                    {
                        let updated = with_fields(old(self).store@[i], title@, message@, interval);
                        &&& 0 <= i < old(self).store@.len()
                        &&& old(self).store@[i].id == id
                        &&& final(self).store@ =~= old(self).store@.update(i, updated)
                        &&& a matches Applied::Mutated { response, actions }
                        &&& response matches Response::Updated { schedule } && schedule@ == updated
                        &&& actions.deep_view() =~= (if old(self).store@[i].stopped {
                            Seq::<TimerActionView>::empty()
                        } else {
                            seq![TimerActionView::Stop(id), TimerActionView::Start(updated)]
                        })
                    }
            },
            req matches Request::Remove { id } ==> {
                &&& !contains_id(old(self).store@, id) ==> final(self).store@ == old(self).store@
                    && (a matches Applied::Done { response } && response matches Response::Error {
                    message,
                } && message@ == spec_not_found_message(id))
                &&& contains_id(old(self).store@, id) ==> exists|i: int|
                    #![trigger old(self).store@[i]]
                    {
                        &&& 0 <= i < old(self).store@.len()
                        &&& old(self).store@[i].id == id
                        &&& final(self).store@ =~= old(self).store@.remove(i)
                        &&& a matches Applied::Mutated { response, actions }
                        &&& response matches Response::Removed { id: removed } && removed == id
                        &&& actions.deep_view() =~= seq![TimerActionView::Stop(id)]
                    }
            },
            req matches Request::Stop { id } ==> {
                &&& !contains_id(old(self).store@, id) ==> final(self).store@ == old(self).store@
                    && (a matches Applied::Done { response } && response matches Response::Error {
                    message,
                } && message@ == spec_not_found_message(id))
                &&& contains_id(old(self).store@, id) ==> exists|i: int|
                    #![trigger old(self).store@[i]]
                    {
                        let updated = with_stopped(old(self).store@[i], true);
                        &&& 0 <= i < old(self).store@.len()
                        &&& old(self).store@[i].id == id
                        &&& final(self).store@ =~= old(self).store@.update(i, updated)
                        &&& a matches Applied::Mutated { response, actions }
                        &&& response matches Response::Stopped { schedule } && schedule@ == updated
                        &&& actions.deep_view() =~= seq![TimerActionView::Stop(id)]
                    }
            },
            req matches Request::Start { id } ==> {
                &&& !contains_id(old(self).store@, id) ==> final(self).store@ == old(self).store@
                    && (a matches Applied::Done { response } && response matches Response::Error {
                    message,
                } && message@ == spec_not_found_message(id))
                &&& contains_id(old(self).store@, id) ==> exists|i: int|
                    #![trigger old(self).store@[i]]
                    {
                        let updated = with_stopped(old(self).store@[i], false);
                        &&& 0 <= i < old(self).store@.len()
                        &&& old(self).store@[i].id == id
                        &&& final(self).store@ =~= old(self).store@.update(i, updated)
                        &&& a matches Applied::Mutated { response, actions }
                        &&& response matches Response::Started { schedule } && schedule@ == updated
                        &&& actions.deep_view() =~= seq![
                            TimerActionView::Stop(id),
                            TimerActionView::Start(updated),
                        ]
                    }
            },
            store_wf(old(self).store@) && (req matches Request::Add { title, message, .. }
                ==> title_ok(title@) && message_ok(message@)) ==> store_wf(final(self).store@),
    {
        match req {
            Request::List => Applied::Done { response: self.op_list() },
            Request::Add { title, message, interval } => self.op_add(title, message, interval),
            Request::Update { id, title, message, interval } => self.op_update(
                id,
                title,
                message,
                interval,
            ),
            Request::Remove { id } => self.op_remove(id),
            Request::Stop { id } => self.op_stop(id),
            Request::Start { id } => self.op_start(id),
        }
    }
}

} // verus!
