//! Claiming interfaces away from the kernel, and giving them back.
//!
//! The manager never talks to the bus. It says which request comes next, is
//! told how the transport answered, and keeps the record from which teardown
//! is planned: which interfaces were claimed, and which had a kernel driver
//! bound when their turn came.

use crate::error::{Error, TransportError};
use vstd::prelude::*;

verus! {

/// What the manager is waiting for.
#[derive(Clone, Copy, Debug, PartialEq, Eq, Structural)]
pub enum ClaimStage {
    /// No claim is in progress.
    Idle,
    /// Whether a kernel driver is bound to the current interface.
    AwaitingDriverState,
    /// The outcome of detaching the kernel driver from the current interface.
    AwaitingDetach,
    /// The outcome of claiming the current interface.
    AwaitingClaim,
}

/// A request for the transport.
#[derive(Clone, Copy, Debug, PartialEq, Eq, Structural)]
pub enum ClaimRequest {
    /// Ask whether a kernel driver is bound to the interface.
    QueryKernelDriver(u8),
    /// Detach the kernel driver from the interface.
    DetachKernelDriver(u8),
    /// Claim the interface for exclusive use.
    ClaimInterface(u8),
}

/// The transport's answer to a [`ClaimRequest`].
#[derive(Clone, Copy, Debug, PartialEq, Eq, Structural)]
pub enum ClaimReply {
    /// Answer to a query: whether a kernel driver is bound.
    DriverState(bool),
    /// The detach, or the claim, succeeded.
    Done,
    /// The request failed.
    Failed(TransportError),
}

/// Where a claim stands after a step.
#[derive(Clone, Copy, Debug, PartialEq, Eq, Structural)]
pub enum ClaimProgress {
    /// The transport is to perform this request and report back.
    Request(ClaimRequest),
    /// Every interface of the call is claimed; nothing is in progress.
    Complete,
    /// The claim was abandoned.
    Failed(Error),
}

/// One claimed interface, with what was found when it was claimed.
#[derive(Clone, Copy, Debug, PartialEq, Eq, Structural)]
pub struct ClaimedInterface {
    /// The interface number.
    pub number: u8,
    /// Whether a kernel driver was bound to the interface when its turn came.
    pub driver_was_active: bool,
}

/// What teardown has to undo, in the order in which to undo it: first every
/// release, then every reattachment. The transport's answers are not wanted.
#[derive(Clone, Debug, PartialEq, Eq)]
pub struct TeardownPlan {
    /// The interfaces to release.
    pub release: Vec<u8>,
    /// The interfaces to reattach a kernel driver to.
    pub reattach: Vec<u8>,
}

/// `members` with `number` among them: added at the end if it was missing.
pub open spec fn with_member(members: Seq<u8>, number: u8) -> Seq<u8> {
    if members.contains(number) {
        members
    } else {
        members.push(number)
    }
}

/// Mathematical model of the manager.
pub struct LifecycleState {
    /// The interfaces claimed so far, in the order of their first claim.
    pub claimed: Seq<u8>,
    /// The interfaces that had a kernel driver bound when their turn came,
    /// in the order in which that was found.
    pub restorable: Seq<u8>,
    /// What is left of the claim in progress; the current interface first.
    pub pending: Seq<u8>,
    /// What the manager is waiting for.
    pub stage: ClaimStage,
}

impl LifecycleState {
    /// The manager before anything was claimed, and after teardown.
    pub open spec fn initial() -> LifecycleState {
        LifecycleState {
            claimed: Seq::empty(),
            restorable: Seq::empty(),
            pending: Seq::empty(),
            stage: ClaimStage::Idle,
        }
    }

    /// No interface is recorded twice, and a claim is in progress exactly
    /// while interfaces are pending.
    pub open spec fn well_formed(self) -> bool {
        &&& self.claimed.no_duplicates()
        &&& self.restorable.no_duplicates()
        &&& self.stage is Idle <==> self.pending.len() == 0
    }

    /// The request that the manager is waiting to hear about.
    pub open spec fn outstanding(self) -> ClaimProgress {
        match self.stage {
            ClaimStage::Idle => ClaimProgress::Complete,
            ClaimStage::AwaitingDriverState => ClaimProgress::Request(
                ClaimRequest::QueryKernelDriver(self.pending[0]),
            ),
            ClaimStage::AwaitingDetach => ClaimProgress::Request(
                ClaimRequest::DetachKernelDriver(self.pending[0]),
            ),
            ClaimStage::AwaitingClaim => ClaimProgress::Request(
                ClaimRequest::ClaimInterface(self.pending[0]),
            ),
        }
    }

    /// The state after a claim of `interfaces` is begun. A claim that was in
    /// progress is abandoned; what is recorded stays.
    pub open spec fn begin(self, interfaces: Seq<u8>) -> LifecycleState {
        LifecycleState {
            pending: interfaces,
            stage: if interfaces.len() == 0 {
                ClaimStage::Idle
            } else {
                ClaimStage::AwaitingDriverState
            },
            ..self
        }
    }

    /// The state after the transport's `reply`.
    ///
    /// A failure abandons the claim. A driver found bound is recorded before
    /// its detachment is asked for. A successful claim is recorded and moves
    /// on to the next interface. A reply that does not answer the outstanding
    /// request changes nothing.
    pub open spec fn advance(self, reply: ClaimReply) -> LifecycleState {
        match (self.stage, reply) {
            (ClaimStage::Idle, _) => self,
            (_, ClaimReply::Failed(_)) => LifecycleState {
                pending: Seq::empty(),
                stage: ClaimStage::Idle,
                ..self
            },
            (ClaimStage::AwaitingDriverState, ClaimReply::DriverState(true)) => LifecycleState {
                restorable: with_member(self.restorable, self.pending[0]),
                stage: ClaimStage::AwaitingDetach,
                ..self
            },
            (ClaimStage::AwaitingDriverState, ClaimReply::DriverState(false)) => LifecycleState {
                stage: ClaimStage::AwaitingClaim,
                ..self
            },
            (ClaimStage::AwaitingDetach, ClaimReply::Done) => LifecycleState {
                stage: ClaimStage::AwaitingClaim,
                ..self
            },
            (ClaimStage::AwaitingClaim, ClaimReply::Done) => LifecycleState {
                claimed: with_member(self.claimed, self.pending[0]),
                pending: self.pending.drop_first(),
                stage: if self.pending.len() == 1 {
                    ClaimStage::Idle
                } else {
                    ClaimStage::AwaitingDriverState
                },
                ..self
            },
            _ => self,
        }
    }

    /// What the manager says after the transport's `reply`: the failure, if
    /// the reply reports one for the outstanding request, and otherwise what
    /// is outstanding next.
    pub open spec fn answer(self, reply: ClaimReply) -> ClaimProgress {
        match (self.stage, reply) {
            (ClaimStage::Idle, _) => ClaimProgress::Complete,
            (_, ClaimReply::Failed(cause)) => ClaimProgress::Failed(
                Error::InterfaceClaimFailed(self.pending[0], cause),
            ),
            _ => self.advance(reply).outstanding(),
        }
    }
}

/// Every step keeps the state well formed.
pub proof fn lemma_steps_keep_well_formed(state: LifecycleState)
    requires
        state.well_formed(),
    ensures
        forall|interfaces: Seq<u8>| #[trigger] state.begin(interfaces).well_formed(),
        forall|reply: ClaimReply| #[trigger] state.advance(reply).well_formed(),
{
}

/// Adding a member to a sequence without duplicates leaves it without
/// duplicates, and with exactly one more member to find.
pub proof fn lemma_with_member_distinct(members: Seq<u8>, number: u8)
    requires
        members.no_duplicates(),
    ensures
        with_member(members, number).no_duplicates(),
        forall|other: u8| #[trigger]
            with_member(members, number).contains(other) <==> other == number || members.contains(
                other,
            ),
{
    let extended = with_member(members, number);
    if !members.contains(number) {
        assert(extended[members.len() as int] == number);
        assert forall|other: u8| members.contains(other) implies #[trigger] extended.contains(
            other,
        ) by {
            let i = choose|i: int| 0 <= i < members.len() && members[i] == other;
            assert(extended[i] == other);
        }
    }
}

/// One thing that happens to a manager between its creation and its
/// teardown.
pub enum LifecycleEvent {
    /// A claim of these interfaces is begun.
    Claim(Seq<u8>),
    /// The transport answers.
    Reply(ClaimReply),
}

/// The state of a manager that has seen `events` since it was created.
pub open spec fn state_after(events: Seq<LifecycleEvent>) -> LifecycleState
    decreases events.len(),
{
    if events.len() == 0 {
        LifecycleState::initial()
    } else {
        let before = state_after(events.drop_last());
        match events.last() {
            LifecycleEvent::Claim(interfaces) => before.begin(interfaces),
            LifecycleEvent::Reply(reply) => before.advance(reply),
        }
    }
}

/// Event `k` is the transport's answer, to a query about `number`, that a
/// kernel driver is bound.
pub open spec fn found_bound_at(events: Seq<LifecycleEvent>, k: int, number: u8) -> bool {
    &&& 0 <= k < events.len()
    &&& events[k] == LifecycleEvent::Reply(ClaimReply::DriverState(true))
    &&& state_after(events.take(k)).stage is AwaitingDriverState
    &&& state_after(events.take(k)).pending[0] == number
}

/// Event `k` is the transport's answer that the claim of `number` succeeded.
pub open spec fn claimed_at(events: Seq<LifecycleEvent>, k: int, number: u8) -> bool {
    &&& 0 <= k < events.len()
    &&& events[k] == LifecycleEvent::Reply(ClaimReply::Done)
    &&& state_after(events.take(k)).stage is AwaitingClaim
    &&& state_after(events.take(k)).pending[0] == number
}

/// Event `k` begins a claim that names `number`.
pub open spec fn requested_at(events: Seq<LifecycleEvent>, k: int, number: u8) -> bool {
    &&& 0 <= k < events.len()
    &&& events[k] matches LifecycleEvent::Claim(interfaces)
    &&& interfaces.contains(number)
}

/// What is known of a prefix of the events is known of all of them.
proof fn lemma_prefix_events(events: Seq<LifecycleEvent>, k: int)
    requires
        0 <= k < events.len() - 1,
    ensures
        events.drop_last().take(k) == events.take(k),
        events.drop_last()[k] == events[k],
{
}

/// Whatever happened to a manager, teardown reattaches a kernel driver to
/// exactly the interfaces that had one bound when they were asked about, and
/// releases exactly the interfaces whose claim succeeded, none of them twice.
pub proof fn lemma_teardown_undoes_exactly(events: Seq<LifecycleEvent>)
    ensures
        state_after(events).well_formed(),
        forall|number: u8|
            state_after(events).restorable.contains(number) <==> exists|k: int| #[trigger]
                found_bound_at(events, k, number),
        forall|number: u8|
            state_after(events).claimed.contains(number) <==> exists|k: int| #[trigger]
                claimed_at(events, k, number),
    decreases events.len(),
{
    if events.len() > 0 {
        let earlier = events.drop_last();
        let last = events.len() - 1;
        let before = state_after(earlier);
        let after = state_after(events);
        lemma_teardown_undoes_exactly(earlier);
        if before.pending.len() > 0 {
            lemma_with_member_distinct(before.restorable, before.pending[0]);
            lemma_with_member_distinct(before.claimed, before.pending[0]);
        }
        assert forall|number: u8|
            after.restorable.contains(number) <==> exists|k: int| #[trigger]
                found_bound_at(events, k, number) by {
            if after.restorable.contains(number) {
                if before.restorable.contains(number) {
                    let k = choose|k: int| #[trigger] found_bound_at(earlier, k, number);
                    lemma_prefix_events(events, k);
                    assert(found_bound_at(events, k, number));
                } else {
                    assert(found_bound_at(events, last, number));
                }
            }
            if exists|k: int| #[trigger] found_bound_at(events, k, number) {
                let k = choose|k: int| #[trigger] found_bound_at(events, k, number);
                if k < last {
                    lemma_prefix_events(events, k);
                    assert(found_bound_at(earlier, k, number));
                }
            }
        }
        assert forall|number: u8|
            after.claimed.contains(number) <==> exists|k: int| #[trigger]
                claimed_at(events, k, number) by {
            if after.claimed.contains(number) {
                if before.claimed.contains(number) {
                    let k = choose|k: int| #[trigger] claimed_at(earlier, k, number);
                    lemma_prefix_events(events, k);
                    assert(claimed_at(events, k, number));
                } else {
                    assert(claimed_at(events, last, number));
                }
            }
            if exists|k: int| #[trigger] claimed_at(events, k, number) {
                let k = choose|k: int| #[trigger] claimed_at(events, k, number);
                if k < last {
                    lemma_prefix_events(events, k);
                    assert(claimed_at(earlier, k, number));
                }
            }
        }
    }
}

/// An interface that no claim ever named is neither released nor reattached
/// at teardown.
pub proof fn lemma_teardown_spares_the_unnamed(events: Seq<LifecycleEvent>, number: u8)
    requires
        forall|k: int| !#[trigger] requested_at(events, k, number),
    ensures
        !state_after(events).claimed.contains(number),
        !state_after(events).restorable.contains(number),
        !state_after(events).pending.contains(number),
    decreases events.len(),
{
    if events.len() > 0 {
        let earlier = events.drop_last();
        assert forall|k: int| !#[trigger] requested_at(earlier, k, number) by {
            if 0 <= k < earlier.len() {
                assert(!requested_at(events, k, number));
            }
        }
        lemma_teardown_spares_the_unnamed(earlier, number);
        lemma_teardown_undoes_exactly(earlier);
        assert(!requested_at(events, events.len() - 1, number));
    }
}

/// Puts `number` among `members` unless it is there already.
fn insert_member(members: &mut Vec<u8>, number: u8)
    ensures
        final(members)@ == with_member(old(members)@, number),
{
    let mut i: usize = 0;
    while i < members.len()
        invariant
            0 <= i <= members.len(),
            *members == *old(members),
            forall|j: int| 0 <= j < i ==> members@[j] != number,
        decreases members.len() - i,
    {
        if members[i] == number {
            return ;
        }
        i += 1;
    }
    members.push(number);
}

/// Keeps track of the interfaces taken from the kernel so that all of them
/// can be given back.
#[derive(Debug)]
pub struct InterfaceLifecycleManager {
    claimed: Vec<u8>,
    restorable: Vec<u8>,
    queue: Vec<u8>,
    cursor: usize,
    stage: ClaimStage,
}

impl View for InterfaceLifecycleManager {
    type V = LifecycleState;

    closed spec fn view(&self) -> LifecycleState {
        LifecycleState {
            claimed: self.claimed@,
            restorable: self.restorable@,
            pending: self.queue@.skip(self.cursor as int),
            stage: self.stage,
        }
    }
}

impl InterfaceLifecycleManager {
    /// The invariant of the manager: that of its model.
    pub closed spec fn well_formed(&self) -> bool {
        &&& self.cursor <= self.queue.len()
        &&& self@.well_formed()
    }

    /// A manager that has claimed nothing.
    pub fn new() -> (manager: InterfaceLifecycleManager)
        ensures
            manager.well_formed(),
            manager@ == LifecycleState::initial(),
    {
        let manager = InterfaceLifecycleManager {
            claimed: Vec::new(),
            restorable: Vec::new(),
            queue: Vec::new(),
            cursor: 0,
            stage: ClaimStage::Idle,
        };
        assert(manager.queue@.skip(0) =~= Seq::<u8>::empty());
        manager
    }

    /// The request for the head of the queue at the current stage.
    fn outstanding(&self) -> (progress: ClaimProgress)
        requires
            self.well_formed(),
        ensures
            progress == self@.outstanding(),
    {
        match self.stage {
            ClaimStage::Idle => ClaimProgress::Complete,
            ClaimStage::AwaitingDriverState => ClaimProgress::Request(
                ClaimRequest::QueryKernelDriver(self.queue[self.cursor]),
            ),
            ClaimStage::AwaitingDetach => ClaimProgress::Request(
                ClaimRequest::DetachKernelDriver(self.queue[self.cursor]),
            ),
            ClaimStage::AwaitingClaim => ClaimProgress::Request(
                ClaimRequest::ClaimInterface(self.queue[self.cursor]),
            ),
        }
    }

    /// Begins claiming `interfaces`, in the order given, and says what to ask
    /// of the transport first.
    pub fn begin_claim(&mut self, interfaces: Vec<u8>) -> (progress: ClaimProgress)
        requires
            old(self).well_formed(),
        ensures
            final(self).well_formed(),
            final(self)@ == old(self)@.begin(interfaces@),
            progress == final(self)@.outstanding(),
    {
        self.stage = if interfaces.len() == 0 {
            ClaimStage::Idle
        } else {
            ClaimStage::AwaitingDriverState
        };
        self.queue = interfaces;
        self.cursor = 0;
        assert(self.queue@.skip(0) =~= self.queue@);
        self.outstanding()
    }

    /// Takes the transport's reply to the outstanding request and says what
    /// comes next.
    pub fn advance(&mut self, reply: ClaimReply) -> (progress: ClaimProgress)
        requires
            old(self).well_formed(),
        ensures
            final(self).well_formed(),
            final(self)@ == old(self)@.advance(reply),
            progress == old(self)@.answer(reply),
    {
        if let ClaimStage::Idle = self.stage {
            return ClaimProgress::Complete;
        }
        let number = self.queue[self.cursor];
        match (self.stage, reply) {
            (_, ClaimReply::Failed(cause)) => {
                self.cursor = self.queue.len();
                self.stage = ClaimStage::Idle;
                assert(self.queue@.skip(self.cursor as int) =~= Seq::<u8>::empty());
                ClaimProgress::Failed(Error::InterfaceClaimFailed(number, cause))
            },
            (ClaimStage::AwaitingDriverState, ClaimReply::DriverState(true)) => {
                insert_member(&mut self.restorable, number);
                self.stage = ClaimStage::AwaitingDetach;
                self.outstanding()
            },
            (ClaimStage::AwaitingDriverState, ClaimReply::DriverState(false)) => {
                self.stage = ClaimStage::AwaitingClaim;
                self.outstanding()
            },
            (ClaimStage::AwaitingDetach, ClaimReply::Done) => {
                self.stage = ClaimStage::AwaitingClaim;
                self.outstanding()
            },
            (ClaimStage::AwaitingClaim, ClaimReply::Done) => {
                insert_member(&mut self.claimed, number);
                assert(self.queue@.skip(self.cursor as int).drop_first() =~= self.queue@.skip(
                    self.cursor as int + 1,
                ));
                self.cursor = self.cursor + 1;
                self.stage = if self.cursor == self.queue.len() {
                    ClaimStage::Idle
                } else {
                    ClaimStage::AwaitingDriverState
                };
                self.outstanding()
            },
            _ => self.outstanding(),
        }
    }

    /// Plans the teardown and forgets everything: every claimed interface is
    /// to be released, and every interface that had a kernel driver bound is
    /// to get it back, each once. A second teardown finds nothing to do.
    pub fn teardown(&mut self) -> (plan: TeardownPlan)
        requires
            old(self).well_formed(),
        ensures
            final(self).well_formed(),
            final(self)@ == LifecycleState::initial(),
            plan.release@ == old(self)@.claimed,
            plan.reattach@ == old(self)@.restorable,
            plan.release@.no_duplicates(),
            plan.reattach@.no_duplicates(),
    {
        let mut release: Vec<u8> = Vec::new();
        let mut reattach: Vec<u8> = Vec::new();
        std::mem::swap(&mut release, &mut self.claimed);
        std::mem::swap(&mut reattach, &mut self.restorable);
        self.queue = Vec::new();
        self.cursor = 0;
        self.stage = ClaimStage::Idle;
        assert(self.queue@.skip(0) =~= Seq::<u8>::empty());
        TeardownPlan { release, reattach }
    }

    /// The claimed interfaces in the order of their first claim, each with
    /// whether it had a kernel driver bound.
    pub fn claimed_interfaces(&self) -> (entries: Vec<ClaimedInterface>)
        ensures
            entries@.len() == self@.claimed.len(),
            forall|i: int|
                0 <= i < entries@.len() ==> #[trigger] entries@[i] == (ClaimedInterface {
                    number: self@.claimed[i],
                    driver_was_active: self@.restorable.contains(self@.claimed[i]),
                }),
    {
        let mut entries: Vec<ClaimedInterface> = Vec::new();
        let mut i: usize = 0;
        while i < self.claimed.len()
            invariant
                0 <= i <= self.claimed.len(),
                entries@.len() == i,
                forall|j: int|
                    0 <= j < i ==> #[trigger] entries@[j] == (ClaimedInterface {
                        number: self.claimed@[j],
                        driver_was_active: self.restorable@.contains(self.claimed@[j]),
                    }),
            decreases self.claimed.len() - i,
        {
            let number = self.claimed[i];
            let driver_was_active = contains_member(&self.restorable, number);
            entries.push(ClaimedInterface { number, driver_was_active });
            i += 1;
        }
        entries
    }

    /// Whether the interface has been claimed.
    pub fn is_claimed(&self, number: u8) -> (claimed: bool)
        ensures
            claimed == self@.claimed.contains(number),
    {
        contains_member(&self.claimed, number)
    }

    /// Whether the interface had a kernel driver bound when its turn came.
    pub fn driver_was_active(&self, number: u8) -> (active: bool)
        ensures
            active == self@.restorable.contains(number),
    {
        contains_member(&self.restorable, number)
    }

    /// What the manager is waiting for.
    pub fn stage(&self) -> (stage: ClaimStage)
        ensures
            stage == self@.stage,
    {
        self.stage
    }
}

/// Whether `number` is among `members`.
fn contains_member(members: &Vec<u8>, number: u8) -> (found: bool)
    ensures
        found == members@.contains(number),
{
    let mut i: usize = 0;
    while i < members.len()
        invariant
            0 <= i <= members.len(),
            forall|j: int| 0 <= j < i ==> members@[j] != number,
        decreases members.len() - i,
    {
        if members[i] == number {
            return true;
        }
        i += 1;
    }
    false
}

} // verus!
