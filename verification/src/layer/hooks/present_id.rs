//! Which swapchain generation each presented identifier went to.

use std::collections::BTreeMap;

use vstd::prelude::*;

use crate::seqs::copy_slice;
use crate::vk::Handle;

verus! {

/// The generation and the downstream swapchain that an identifier went to.
#[derive(Debug, Clone, Copy, PartialEq, Eq, Structural)]
pub struct PresentIdRoute {
    pub generation: u64,
    pub physical: Handle,
}

impl PresentIdRoute {
    pub fn generation(self) -> (generation: u64)
        ensures
            generation == self.generation,
    {
        self.generation
    }

    pub fn physical(self) -> (physical: Handle)
        ensures
            physical == self.physical,
    {
        self.physical
    }
}

#[derive(Debug, Clone, Copy, PartialEq, Eq, Structural)]
pub enum PresentIdRouteError {
    Empty,
    NonMonotonic,
    Pending,
}

/// Identifiers of a present that is under way.
#[derive(Debug, PartialEq, Eq)]
pub struct PresentIdReservation {
    ids: Vec<u64>,
    generation: u64,
    physical: Handle,
}

#[verifier::ext_equal]
pub struct ReservationModel {
    pub ids: Seq<u64>,
    pub route: PresentIdRoute,
}

impl View for PresentIdReservation {
    type V = ReservationModel;

    closed spec fn view(&self) -> ReservationModel {
        ReservationModel {
            ids: self.ids@,
            route: PresentIdRoute { generation: self.generation, physical: self.physical },
        }
    }
}

impl PresentIdReservation {
    /// The same reservation in a value of its own.
    pub fn duplicate(&self) -> (reservation: Self)
        ensures
            reservation@ == self@,
    {
        PresentIdReservation {
            ids: copy_slice(self.ids.as_slice()),
            generation: self.generation,
            physical: self.physical,
        }
    }

    fn same(&self, other: &Self) -> (same: bool)
        ensures
            same == (self@ == other@),
    {
        if self.generation != other.generation || self.physical != other.physical
            || self.ids.len() != other.ids.len() {
            return false;
        }
        let mut index: usize = 0;
        while index < self.ids.len()
            invariant
                index <= self.ids.len(),
                self.ids.len() == other.ids.len(),
                forall|i: int| 0 <= i < index ==> self.ids@[i] == other.ids@[i],
            decreases self.ids.len() - index,
        {
            if self.ids[index] != other.ids[index] {
                assert(self@.ids[index as int] != other@.ids[index as int]);
                return false;
            }
            index = index + 1;
        }
        assert(self@ =~= other@);
        true
    }
}

/// Identifiers that grow, each above the one before it and the first above
/// what was committed last.
pub open spec fn increasing(ids: Seq<u64>, last: Option<u64>) -> bool {
    &&& forall|i: int, j: int| 0 <= i < j < ids.len() ==> ids[i] < ids[j]
    &&& last matches Some(previous) ==> forall|i: int|
        0 <= i < ids.len() ==> previous < #[trigger] ids[i]
}

#[verifier::ext_equal]
pub struct HistoryModel {
    pub routes: Map<u64, PresentIdRoute>,
    pub last_committed: Option<u64>,
    pub pending: Option<ReservationModel>,
}

impl HistoryModel {
    pub open spec fn fresh() -> HistoryModel {
        HistoryModel { routes: Map::empty(), last_committed: None, pending: None }
    }

    /// No identifier is above the one committed last, and the pending ones
    /// are not empty and grow from there.
    pub open spec fn wf(self) -> bool {
        &&& forall|id: u64| #[trigger]
            self.routes.contains_key(id) ==> self.last_committed is Some && id
                <= self.last_committed.unwrap()
        &&& self.pending matches Some(reservation) ==> reservation.ids.len() > 0 && increasing(
            reservation.ids,
            self.last_committed,
        )
    }

    pub open spec fn stageable(self, ids: Seq<u64>) -> bool {
        ids.len() > 0 && self.pending is None && increasing(ids, self.last_committed)
    }

    /// The pending identifiers lead where their reservation says, all others
    /// where they led before.
    pub open spec fn committed(self) -> HistoryModel {
        let reservation = self.pending.unwrap();
        HistoryModel {
            routes: Map::new(
                |id: u64| self.routes.contains_key(id) || reservation.ids.contains(id),
                |id: u64|
                    if reservation.ids.contains(id) {
                        reservation.route
                    } else {
                        self.routes[id]
                    },
            ),
            last_committed: Some(reservation.ids.last()),
            pending: None,
        }
    }
}

/// Every identifier that was committed, and what is under way.
#[derive(Debug)]
pub struct PresentIdHistory {
    routes: BTreeMap<u64, PresentIdRoute>,
    last_committed: Option<u64>,
    pending: Option<PresentIdReservation>,
}

impl View for PresentIdHistory {
    type V = HistoryModel;

    closed spec fn view(&self) -> HistoryModel {
        HistoryModel {
            routes: self.routes@,
            last_committed: self.last_committed,
            pending: match self.pending {
                Some(reservation) => Some(reservation@),
                None => None,
            },
        }
    }
}

impl PresentIdHistory {
    pub fn new() -> (history: Self)
        ensures
            history@.wf(),
            history@ == HistoryModel::fresh(),
    {
        PresentIdHistory { routes: BTreeMap::new(), last_committed: None, pending: None }
    }

    /// Reserves identifiers for a present to one generation.
    pub fn stage(&mut self, generation: u64, physical: Handle, ids: &[u64]) -> (result: Result<
        PresentIdReservation,
        PresentIdRouteError,
    >)
        requires
            old(self)@.wf(),
        ensures
            final(self)@.wf(),
            match result {
                Ok(reservation) => {
                    &&& old(self)@.stageable(ids@)
                    &&& reservation@ == ReservationModel {
                        ids: ids@,
                        route: PresentIdRoute { generation, physical },
                    }
                    &&& final(self)@ == HistoryModel {
                        pending: Some(reservation@),
                        ..old(self)@
                    }
                },
                Err(error) => {
                    &&& final(self)@ == old(self)@
                    &&& error == (if ids@.len() == 0 {
                        PresentIdRouteError::Empty
                    } else if old(self)@.pending is Some {
                        PresentIdRouteError::Pending
                    } else {
                        PresentIdRouteError::NonMonotonic
                    })
                    &&& !old(self)@.stageable(ids@)
                },
            },
    {
        if ids.len() == 0 {
            return Err(PresentIdRouteError::Empty);
        }
        if self.pending.is_some() {
            return Err(PresentIdRouteError::Pending);
        }
        let mut previous: Option<u64> = self.last_committed;
        let mut index: usize = 0;
        while index < ids.len()
            invariant
                index <= ids.len(),
                *self == *old(self),
                self@.wf(),
                self@.pending is None,
                ids@.len() > 0,
                previous == (if index == 0 {
                    self.last_committed
                } else {
                    Some(ids@[index - 1])
                }),
                increasing(ids@.take(index as int), self.last_committed),
            decreases ids.len() - index,
        {
            let id: u64 = ids[index];
            if let Some(before) = previous {
                if id <= before {
                    proof {
                        if index == 0 {
                            assert(!(before < ids@[0]));
                        } else {
                            assert(!(ids@[index - 1] < ids@[index as int]));
                        }
                        assert(!increasing(ids@, self.last_committed));
                    }
                    return Err(PresentIdRouteError::NonMonotonic);
                }
            }
            proof {
                let seen = ids@.take(index as int);
                let more = ids@.take(index + 1);
                assert forall|i: int, j: int| 0 <= i < j < more.len() implies more[i] < more[j] by {
                    if j < index {
                        assert(seen[i] < seen[j]);
                    } else if i < index - 1 {
                        assert(seen[i] < seen[index - 1]);
                    }
                }
                if self.last_committed is Some {
                    assert forall|i: int| 0 <= i < more.len() implies self.last_committed.unwrap()
                        < #[trigger] more[i] by {
                        if i < index {
                            assert(seen[i] == more[i]);
                        } else if index > 0 {
                            assert(seen[index - 1] == ids@[index - 1]);
                        }
                    }
                }
            }
            previous = Some(id);
            index = index + 1;
        }
        assert(ids@.take(ids@.len() as int) == ids@);
        let reservation: PresentIdReservation = PresentIdReservation {
            ids: copy_slice(ids),
            generation,
            physical,
        };
        self.pending = Some(reservation.duplicate());
        Ok(reservation)
    }

    fn is_pending(&self, reservation: &PresentIdReservation) -> (pending: bool)
        ensures
            pending == (self@.pending == Some(reservation@)),
    {
        match &self.pending {
            Some(pending) => pending.same(reservation),
            None => false,
        }
    }

    /// Puts the pending identifiers on record.
    pub fn commit(&mut self, reservation: PresentIdReservation) -> (committed: bool)
        requires
            old(self)@.wf(),
        ensures
            final(self)@.wf(),
            committed == (old(self)@.pending == Some(reservation@)),
            final(self)@ == (if committed {
                old(self)@.committed()
            } else {
                old(self)@
            }),
    {
        if !self.is_pending(&reservation) {
            return false;
        }
        let ghost before = self@;
        let mut index: usize = 0;
        while index < reservation.ids.len()
            invariant
                index <= reservation.ids.len(),
                self.last_committed == old(self).last_committed,
                self.pending == old(self).pending,
                before == old(self)@,
                before.wf(),
                before.pending == Some(reservation@),
                forall|id: u64| #[trigger]
                    self.routes@.contains_key(id) <==> before.routes.contains_key(id)
                        || reservation.ids@.take(index as int).contains(id),
                forall|id: u64| #[trigger]
                    self.routes@.contains_key(id) ==> self.routes@[id] == (
                    if reservation.ids@.take(index as int).contains(id) {
                        reservation@.route
                    } else {
                        before.routes[id]
                    }),
            decreases reservation.ids.len() - index,
        {
            let ghost earlier = self.routes@;
            self.routes.insert(
                reservation.ids[index],
                PresentIdRoute {
                    generation: reservation.generation,
                    physical: reservation.physical,
                },
            );
            proof {
                let seen = reservation.ids@.take(index as int);
                let more = reservation.ids@.take(index + 1);
                assert(more == seen.push(reservation.ids@[index as int]));
                assert forall|id: u64| more.contains(id) <==> seen.contains(id) || id
                    == reservation.ids@[index as int] by {
                    if seen.contains(id) {
                        assert(more[seen.index_of(id)] == id);
                    }
                    assert(more[index as int] == reservation.ids@[index as int]);
                    if more.contains(id) && id != reservation.ids@[index as int] {
                        assert(seen[more.index_of(id)] == id);
                    }
                }
            }
            index = index + 1;
        }
        assert(reservation.ids@.take(reservation.ids@.len() as int) == reservation.ids@);
        self.last_committed = Some(reservation.ids[reservation.ids.len() - 1]);
        self.pending = None;
        proof {
            assert(self@.routes =~= before.committed().routes);
            let ids = reservation.ids@;
            assert forall|id: u64| #[trigger] self@.routes.contains_key(id) implies id
                <= ids.last() by {
                if ids.contains(id) {
                    let i = ids.index_of(id);
                    assert(i < ids.len() - 1 ==> ids[i] < ids[ids.len() - 1]);
                } else {
                    assert(before.routes.contains_key(id));
                    assert(before.last_committed.unwrap() < ids[ids.len() - 1]);
                }
            }
        }
        true
    }

    /// Gives the pending identifiers back.
    pub fn rollback(&mut self, reservation: PresentIdReservation) -> (undone: bool)
        requires
            old(self)@.wf(),
        ensures
            final(self)@.wf(),
            undone == (old(self)@.pending == Some(reservation@)),
            final(self)@ == (if undone {
                HistoryModel { pending: None, ..old(self)@ }
            } else {
                old(self)@
            }),
    {
        if !self.is_pending(&reservation) {
            return false;
        }
        self.pending = None;
        true
    }

    pub fn resolve(&self, id: u64) -> (route: Option<PresentIdRoute>)
        ensures
            route == (if self@.routes.contains_key(id) {
                Some(self@.routes[id])
            } else {
                None
            }),
    {
        match self.routes.get(&id) {
            Some(route) => Some(*route),
            None => None,
        }
    }
}

/// Staging and giving back leaves the history as it was, so the same
/// identifiers can be staged again.
pub proof fn rollback_undoes_stage(history: HistoryModel, ids: Seq<u64>, route: PresentIdRoute)
    requires
        history.wf(),
        history.stageable(ids),
    ensures
        ({
            let staged = HistoryModel {
                pending: Some(ReservationModel { ids, route }),
                ..history
            };
            &&& HistoryModel { pending: None, ..staged } == history
            &&& (HistoryModel { pending: None, ..staged }).stageable(ids)
        }),
{
}

/// Committing staged identifiers makes each of them resolvable to its own
/// route and moves no identifier that was committed before.
pub proof fn commit_keeps_older_routes(
    history: HistoryModel,
    ids: Seq<u64>,
    route: PresentIdRoute,
    id: u64,
)
    requires
        history.wf(),
        history.stageable(ids),
    ensures
        ({
            let committed = (HistoryModel {
                pending: Some(ReservationModel { ids, route }),
                ..history
            }).committed();
            &&& ids.contains(id) ==> committed.routes.contains_key(id) && committed.routes[id]
                == route
            &&& history.routes.contains_key(id) ==> committed.routes.contains_key(id)
                && committed.routes[id] == history.routes[id]
            &&& committed.routes.contains_key(id) ==> ids.contains(id)
                || history.routes.contains_key(id)
        }),
{
    if ids.contains(id) && history.routes.contains_key(id) {
        let i = ids.index_of(id);
        assert(history.last_committed.unwrap() < ids[i]);
    }
}

/// An identifier that is not above the last committed one is never staged.
pub proof fn identifiers_never_repeat(history: HistoryModel, ids: Seq<u64>, id: u64)
    requires
        history.wf(),
        history.routes.contains_key(id),
        ids.contains(id),
    ensures
        !history.stageable(ids),
{
    let i = ids.index_of(id);
    if history.stageable(ids) {
        assert(history.last_committed.unwrap() < ids[i]);
    }
}

/// Identifiers can be staged where there are some, none is pending, each is
/// above the one before it and the first above all that were presented.
pub proof fn identifiers_grow(history: HistoryModel, ids: Seq<u64>, i: int, j: int)
    requires
        history.stageable(ids),
    ensures
        ids.len() > 0,
        history.pending is None,
        0 <= i < j < ids.len() ==> ids[i] < ids[j],
        0 <= i < ids.len() ==> (history.last_committed matches Some(last) ==> last < ids[i]),
{
}

/// One identifier above all that were presented can always be staged, and after
/// it is presented it is the last one.
pub proof fn a_larger_identifier_can_be_staged(
    history: HistoryModel,
    id: u64,
    route: PresentIdRoute,
)
    requires
        history.pending is None,
        history.last_committed matches Some(last) ==> last < id,
    ensures
        history.stageable(seq![id]),
        ({
            let committed = (HistoryModel {
                pending: Some(ReservationModel { ids: seq![id], route }),
                ..history
            }).committed();
            &&& committed.last_committed == Some(id)
            &&& committed.pending is None
            &&& committed.routes.contains_key(id)
            &&& committed.routes[id] == route
            &&& !committed.stageable(seq![id])
        }),
        HistoryModel::fresh().last_committed is None,
        HistoryModel::fresh().pending is None,
        !HistoryModel::fresh().routes.contains_key(id),
{
    assert(seq![id][0] == id);
    let committed = (HistoryModel {
        pending: Some(ReservationModel { ids: seq![id], route }),
        ..history
    }).committed();
    assert(seq![id].contains(id));
    if committed.stageable(seq![id]) {
        assert(committed.last_committed.unwrap() < seq![id][0]);
    }
}

} // verus!
