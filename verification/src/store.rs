//! The authoritative in-memory collection of alert schedules: an ordered
//! sequence with unique, positive ids and validated text fields.

use vstd::prelude::*;

use crate::schedule::AlertSchedule;
use crate::schedule::ScheduleView;

verus! {

/// Whether `vs` holds a schedule with the given id.
pub open spec fn contains_id(vs: Seq<ScheduleView>, id: u64) -> bool {
    exists|i: int| 0 <= i < vs.len() && #[trigger] vs[i].id == id
}

/// The largest id in `vs`, zero when `vs` is empty.
pub open spec fn spec_max_id(vs: Seq<ScheduleView>) -> u64
    decreases vs.len(),
{
    if vs.len() == 0 {
        0u64
    } else {
        let rest = spec_max_id(vs.drop_last());
        if vs.last().id > rest {
            vs.last().id
        } else {
            rest
        }
    }
}

/// The collection invariant: ids are pairwise distinct and positive.
pub open spec fn store_wf(vs: Seq<ScheduleView>) -> bool {
    &&& forall|i: int, j: int|
        0 <= i < j < vs.len() ==> #[trigger] vs[i].id != #[trigger] vs[j].id
    &&& forall|i: int| 0 <= i < vs.len() ==> #[trigger] vs[i].id >= 1
}

/// Every id in `vs` is at most `spec_max_id(vs)`.
pub proof fn lemma_max_id_ge_all(vs: Seq<ScheduleView>)
    ensures
        forall|i: int| 0 <= i < vs.len() ==> #[trigger] vs[i].id <= spec_max_id(vs),
    decreases vs.len(),
{
    if vs.len() > 0 {
        lemma_max_id_ge_all(vs.drop_last());
        assert forall|i: int| 0 <= i < vs.len() implies #[trigger] vs[i].id <= spec_max_id(
            vs,
        ) by {
            if i < vs.len() - 1 {
                assert(vs.drop_last()[i] == vs[i]);
                assert(vs.drop_last()[i].id <= spec_max_id(vs.drop_last()));
            } else {
                assert(vs[i] == vs.last());
            }
        }
    }
}

/// The ordered, insertion-order-preserving collection of schedules.
pub struct ScheduleStore {
    schedules: Vec<AlertSchedule>,
}

impl View for ScheduleStore {
    type V = Seq<ScheduleView>;

    closed spec fn view(&self) -> Seq<ScheduleView> {
        self.schedules.deep_view()
    }
}

impl ScheduleStore {
    /// An empty collection.
    pub fn new() -> (r: ScheduleStore)
        ensures
            r@ =~= Seq::<ScheduleView>::empty(),
    {
        ScheduleStore { schedules: Vec::new() }
    }

    /// Adopts a loaded list of schedules if it satisfies the collection
    /// invariant; a list that does not is rejected, so a caller can treat
    /// it like a corrupt file and start fresh.
    pub fn from_schedules(schedules: Vec<AlertSchedule>) -> (r: Option<ScheduleStore>)
        ensures
            r is Some <==> store_wf(schedules.deep_view()),
            r is Some ==> r->0@ == schedules.deep_view(),
    {
        let n = schedules.len();
        let mut i: usize = 0;
        while i < n
            invariant
                n == schedules.len(),
                i <= n,
                forall|p: int, q: int|
                    0 <= p < q < i ==> #[trigger] schedules.deep_view()[p].id
                        != #[trigger] schedules.deep_view()[q].id,
                forall|p: int| 0 <= p < i ==> #[trigger] schedules.deep_view()[p].id >= 1,
            decreases n - i,
        {
            let s = &schedules[i];
            proof {
                assert(schedules.deep_view()[i as int] == schedules@[i as int]@);
            }
            if s.id == 0 {
                proof {
                    assert(schedules.deep_view()[i as int].id == 0);
                }
                return None;
            }
            let mut j: usize = 0;
            while j < i
                invariant
                    i < n,
                    j <= i,
                    n == schedules.len(),
                    forall|p: int|
                        0 <= p < j ==> #[trigger] schedules.deep_view()[p].id
                            != schedules.deep_view()[i as int].id,
                decreases i - j,
            {
                proof {
                    assert(schedules.deep_view()[j as int] == schedules@[j as int]@);
                    assert(schedules.deep_view()[i as int] == schedules@[i as int]@);
                }
                if schedules[j].id == schedules[i].id {
                    proof {
                        let ghost dv = schedules.deep_view();
                        assert(dv[j as int].id == dv[i as int].id);
                    }
                    return None;
                }
                j += 1;
            }
            i += 1;
        }
        Some(ScheduleStore { schedules })
    }

    /// The number of schedules.
    pub fn len(&self) -> (n: usize)
        ensures
            n == self@.len(),
    {
        self.schedules.len()
    }

    /// Borrows the underlying list, for persistence and rendering.
    pub fn schedules(&self) -> (r: &Vec<AlertSchedule>)
        ensures
            r.deep_view() == self@,
    {
        &self.schedules
    }

    /// A copy of the collection, equal to it value for value.
    pub fn snapshot(&self) -> (r: Vec<AlertSchedule>)
        ensures
            r.deep_view() == self@,
    {
        let mut r: Vec<AlertSchedule> = Vec::new();
        let n = self.schedules.len();
        let mut i: usize = 0;
        while i < n
            invariant
                n == self.schedules.len(),
                i <= n,
                r.deep_view() =~= self@.take(i as int),
            decreases n - i,
        {
            r.push(self.schedules[i].clone());
            proof {
                assert(r.deep_view() =~= self@.take(i as int).push(self@[i as int]));
                assert(self@.take(i as int).push(self@[i as int]) =~= self@.take(i + 1));
            }
            i += 1;
        }
        proof {
            assert(self@.take(n as int) =~= self@);
        }
        r
    }

    /// The index of the schedule with the given id, if one exists.
    pub fn find_index(&self, id: u64) -> (r: Option<usize>)
        ensures
            match r {
                Some(i) => i < self@.len() && self@[i as int].id == id,
                None => !contains_id(self@, id),
            },
    {
        let n = self.schedules.len();
        let mut i: usize = 0;
        while i < n
            invariant
                n == self@.len(),
                i <= n,
                forall|p: int| 0 <= p < i ==> #[trigger] self@[p].id != id,
            decreases n - i,
        {
            if self.schedules[i].id == id {
                return Some(i);
            }
            i += 1;
        }
        None
    }

    /// The largest id in the collection, zero when it is empty.
    pub fn max_id(&self) -> (m: u64)
        ensures
            m == spec_max_id(self@),
    {
        let n = self.schedules.len();
        let mut m: u64 = 0;
        let mut i: usize = 0;
        while i < n
            invariant
                n == self@.len(),
                i <= n,
                m == spec_max_id(self@.take(i as int)),
            decreases n - i,
        {
            proof {
                assert(self@.take(i + 1).drop_last() =~= self@.take(i as int));
                assert(self@.take(i + 1).last() == self@[i as int]);
            }
            if self.schedules[i].id > m {
                m = self.schedules[i].id;
            }
            i += 1;
        }
        proof {
            assert(self@.take(n as int) =~= self@);
        }
        m
    }

    /// Appends a schedule at the end.
    pub fn push(&mut self, s: AlertSchedule)
        ensures
            final(self)@ =~= old(self)@.push(s@),
    {
        self.schedules.push(s);
        proof {
            assert(self.schedules.deep_view() =~= old(self).schedules.deep_view().push(s@));
        }
    }

    /// Replaces the schedule at `i`.
    pub fn set(&mut self, i: usize, s: AlertSchedule)
        requires
            i < old(self)@.len(),
        ensures
            final(self)@ =~= old(self)@.update(i as int, s@),
    {
        self.schedules.set(i, s);
        proof {
            assert(self.schedules.deep_view() =~= old(self).schedules.deep_view().update(
                i as int,
                s@,
            ));
        }
    }

    /// Borrows the schedule at `i`.
    pub fn get(&self, i: usize) -> (r: &AlertSchedule)
        requires
            i < self@.len(),
        ensures
            r@ == self@[i as int],
    {
        &self.schedules[i]
    }

    /// Removes the schedule at `i`, keeping the order of the rest.
    pub fn remove_at(&mut self, i: usize)
        requires
            i < old(self)@.len(),
        ensures
            final(self)@ =~= old(self)@.remove(i as int),
    {
        self.schedules.remove(i);
        proof {
            assert(self.schedules.deep_view() =~= old(self).schedules.deep_view().remove(
                i as int,
            ));
        }
    }
}

} // verus!
