//! The building of one transport, shared by all who ask for it.

use vstd::prelude::*;

verus! {

/// How far a transport is.
#[derive(Debug, PartialEq)]
pub enum CellPhase<T> {
    /// There is none, and nobody builds one.
    Empty,
    /// Somebody builds it.
    Building,
    /// It is there.
    Built(T),
}

/// What a caller who asks for the transport is told.
#[derive(Debug, PartialEq)]
pub enum CellAnswer<'a, T> {
    /// Build it, and report how that went.
    Build,
    /// Ask again when the one who builds it is done.
    Wait,
    /// Use this one.
    Use(&'a T),
}

/// What happens to a transport.
pub enum CellEvent<T> {
    /// A caller asks for it.
    Asked,
    /// A build succeeded.
    Built(T),
    /// A build failed or was given up.
    Failed,
}

/// How far a transport is after an event. A failed build leaves nothing behind,
/// and a transport that is there stays.
pub open spec fn phase_after<T>(phase: CellPhase<T>, e: CellEvent<T>) -> CellPhase<T> {
    match phase {
        CellPhase::Empty => match e {
            CellEvent::Asked => CellPhase::Building,
            CellEvent::Built(t) => CellPhase::Built(t),
            CellEvent::Failed => CellPhase::Empty,
        },
        CellPhase::Building => match e {
            CellEvent::Asked => CellPhase::Building,
            CellEvent::Built(t) => CellPhase::Built(t),
            CellEvent::Failed => CellPhase::Empty,
        },
        CellPhase::Built(t) => CellPhase::Built(t),
    }
}

/// What a caller who asks is told.
pub open spec fn answers<'a, T>(phase: CellPhase<T>, answer: CellAnswer<'a, T>) -> bool {
    match (phase, answer) {
        (CellPhase::Empty, CellAnswer::Build) => true,
        (CellPhase::Building, CellAnswer::Wait) => true,
        (CellPhase::Built(t), CellAnswer::Use(u)) => *u == t,
        _ => false,
    }
}

/// The transport of one identity.
#[derive(Debug)]
pub struct TransportCell<T> {
    pub phase: CellPhase<T>,
}

impl<T> TransportCell<T> {
    pub fn new() -> (r: TransportCell<T>)
        ensures
            r.phase == CellPhase::<T>::Empty,
    {
        TransportCell { phase: CellPhase::Empty }
    }

    /// Asks for the transport. Who is told to build it must report with `built`
    /// or `failed`.
    pub fn ask(&mut self) -> (r: CellAnswer<'_, T>)
        ensures
            final(self).phase == phase_after(old(self).phase, CellEvent::Asked),
            answers(old(self).phase, r),
    {
        if matches!(self.phase, CellPhase::Empty) {
            self.phase = CellPhase::Building;
            return CellAnswer::Build;
        }
        match &self.phase {
            CellPhase::Built(t) => CellAnswer::Use(t),
            _ => CellAnswer::Wait,
        }
    }

    /// Takes in that a build succeeded, and gives the transport to use.
    pub fn built(&mut self, transport: T) -> (r: &T)
        ensures
            final(self).phase == phase_after(old(self).phase, CellEvent::Built(transport)),
            final(self).phase == CellPhase::Built(*r),
    {
        if !matches!(self.phase, CellPhase::Built(_)) {
            self.phase = CellPhase::Built(transport);
        }
        match &self.phase {
            CellPhase::Built(t) => t,
            _ => vstd::pervasive::unreached(),
        }
    }

    /// Takes in that a build failed or was given up.
    pub fn failed(&mut self)
        ensures
            final(self).phase == phase_after(old(self).phase, CellEvent::<T>::Failed),
    {
        if matches!(self.phase, CellPhase::Building) {
            self.phase = CellPhase::Empty;
        }
    }
}

/// How far a transport is after a row of events.
pub open spec fn phase_after_all<T>(phase: CellPhase<T>, events: Seq<CellEvent<T>>) -> CellPhase<T>
    decreases events.len(),
{
    if events.len() == 0 {
        phase
    } else {
        phase_after(phase_after_all(phase, events.drop_last()), events.last())
    }
}

/// How many builds have succeeded: those whose transport is taken.
pub open spec fn successes<T>(phase: CellPhase<T>, events: Seq<CellEvent<T>>) -> nat
    decreases events.len(),
{
    if events.len() == 0 {
        0
    } else {
        let before = phase_after_all(phase, events.drop_last());
        successes(phase, events.drop_last()) + if events.last() is Built && !(before is Built) {
            1nat
        } else {
            0
        }
    }
}

/// How many callers have been told to build.
pub open spec fn builds_begun<T>(phase: CellPhase<T>, events: Seq<CellEvent<T>>) -> nat
    decreases events.len(),
{
    if events.len() == 0 {
        0
    } else {
        let before = phase_after_all(phase, events.drop_last());
        builds_begun(phase, events.drop_last()) + if events.last() is Asked && before is Empty {
            1nat
        } else {
            0
        }
    }
}

/// How many of these builds have ended.
pub open spec fn builds_ended<T>(phase: CellPhase<T>, events: Seq<CellEvent<T>>) -> nat
    decreases events.len(),
{
    if events.len() == 0 {
        0
    } else {
        let before = phase_after_all(phase, events.drop_last());
        builds_ended(phase, events.drop_last()) + if !(events.last() is Asked)
            && before is Building {
            1nat
        } else {
            0
        }
    }
}

/// At most one build succeeds, in whatever order callers ask and builds end.
pub proof fn law_at_most_one_build_succeeds<T>(events: Seq<CellEvent<T>>)
    ensures
        successes(CellPhase::Empty, events) <= 1,
        successes(CellPhase::Empty, events) == 1 <==> phase_after_all(
            CellPhase::Empty,
            events,
        ) is Built,
    decreases events.len(),
{
    if events.len() > 0 {
        law_at_most_one_build_succeeds(events.drop_last());
    }
}

/// All who are given a transport are given the same one: once it is there, it
/// stays, and whoever asks is told to use it.
pub proof fn law_all_use_the_same_transport<'a, T>(
    transport: T,
    events: Seq<CellEvent<T>>,
    answer: CellAnswer<'a, T>,
)
    requires
        answers(phase_after_all(CellPhase::Built(transport), events), answer),
    ensures
        phase_after_all(CellPhase::Built(transport), events) == CellPhase::Built(transport),
        answer matches CellAnswer::Use(t) && *t == transport,
    decreases events.len(),
{
    lemma_built_stays(transport, events);
}

proof fn lemma_built_stays<T>(transport: T, events: Seq<CellEvent<T>>)
    ensures
        phase_after_all(CellPhase::Built(transport), events) == CellPhase::Built(transport),
    decreases events.len(),
{
    if events.len() > 0 {
        lemma_built_stays(transport, events.drop_last());
    }
}

/// Callers share one build: while it runs, nobody else is told to build.
pub proof fn law_one_build_at_a_time<T>(events: Seq<CellEvent<T>>)
    ensures
        builds_ended(CellPhase::Empty, events) <= builds_begun(CellPhase::Empty, events)
            <= builds_ended(CellPhase::Empty, events) + 1,
        builds_begun(CellPhase::Empty, events) == builds_ended(CellPhase::Empty, events) + 1 <==> (
        phase_after_all(CellPhase::Empty, events) is Building),
    decreases events.len(),
{
    if events.len() > 0 {
        law_one_build_at_a_time(events.drop_last());
    }
}

/// A failed build is not kept: the next caller is told to build again.
pub proof fn law_failed_build_is_tried_again<'a, T>(answer: CellAnswer<'a, T>)
    requires
        answers(phase_after(CellPhase::<T>::Building, CellEvent::Failed), answer),
    ensures
        answer is Build,
{
}

/// The first who asks builds, whoever asks meanwhile waits, and once the transport
/// is there it is given to all.
pub proof fn law_first_who_asks_builds<'a, T>(
    cell: &mut TransportCell<T>,
    r: CellAnswer<'a, T>,
)
    requires
        call_ensures(TransportCell::<T>::ask, (cell,), r),
    ensures
        match old(cell).phase {
            CellPhase::Empty => r is Build && final(cell).phase is Building,
            CellPhase::Building => r is Wait && final(cell).phase is Building,
            CellPhase::Built(t) => final(cell).phase == CellPhase::Built(t) && (
            r matches CellAnswer::Use(given) && *given == t),
        },
{
}

/// A transport that was built is there, for whoever built it too, unless one was
/// there already, which stays; a build that failed leaves the cell empty, and takes
/// nothing that is there away. A cell starts empty.
pub proof fn law_builds_are_taken_in<T>(
    cell: &mut TransportCell<T>,
    transport: T,
    given: &T,
    other: &mut TransportCell<T>,
    started: TransportCell<T>,
)
    requires
        call_ensures(TransportCell::<T>::built, (cell, transport), given),
        call_ensures(TransportCell::<T>::failed, (other,), ()),
        call_ensures(TransportCell::<T>::new, (), started),
    ensures
        started.phase is Empty,
        final(cell).phase == CellPhase::Built(*given),
        old(cell).phase matches CellPhase::Built(t) ==> *given == t,
        !(old(cell).phase is Built) ==> *given == transport,
        old(other).phase is Building || old(other).phase is Empty ==> final(other).phase is Empty,
        old(other).phase is Built ==> final(other).phase == old(other).phase,
{
}

} // verus!
