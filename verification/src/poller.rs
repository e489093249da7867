//! Polling the input endpoints of the watched interfaces.
//!
//! The poller decides which endpoint is read next and what a read's result
//! means. The reads themselves are the caller's: it performs the request that
//! [`InputPoller::next_action`] hands out and gives the transport's answer to
//! [`InputPoller::complete`].
//!
//! One pass visits the watched interfaces in order. On each, the input
//! endpoints are tried in declared order until one delivers data; a timeout
//! moves on to the next endpoint, and any other failure ends all polling. The
//! cancellation flag is looked at between passes only.

use crate::error::{Error, TransportError};
use crate::topology::{InterfaceInfo, InterfaceInfoView};
use vstd::prelude::*;

verus! {

/// Timeout of one interrupt read, in milliseconds.
pub const READ_TIMEOUT_MS: u64 = 10;

/// The longest timeout that the transport can be given, in milliseconds. It
/// keeps 32 bits of the value.
pub const MAX_TIMEOUT_MS: u64 = 0xFFFF_FFFF;

/// The largest buffer that the transport can be given, in bytes. It passes
/// the length on as a signed 32-bit number.
pub const MAX_READ_SIZE: usize = 0x7FFF_FFFF;

/// One interrupt read for the transport to perform.
#[derive(Clone, Copy, Debug, PartialEq, Eq, Structural)]
pub struct ReadRequest {
    /// The interface that the endpoint belongs to.
    pub interface: u8,
    /// The address of the endpoint to read from.
    pub endpoint: u8,
    /// The size of the buffer to read into, in bytes.
    pub size: usize,
    /// How long to wait for data, in milliseconds.
    pub timeout_ms: u64,
}

/// What the transport said of one interrupt read.
#[derive(Clone, Debug, PartialEq, Eq)]
pub enum TransferResult {
    /// The read succeeded: `transferred` bytes were written to the start of
    /// `buffer`.
    Received { buffer: Vec<u8>, transferred: usize },
    /// The read failed.
    Failed(TransportError),
}

/// Mathematical model of a [`TransferResult`].
pub enum TransferResultView {
    Received { buffer: Seq<u8>, transferred: usize },
    Failed(TransportError),
}

impl View for TransferResult {
    type V = TransferResultView;

    open spec fn view(&self) -> TransferResultView {
        match *self {
            TransferResult::Received { buffer, transferred } => TransferResultView::Received {
                buffer: buffer@,
                transferred,
            },
            TransferResult::Failed(cause) => TransferResultView::Failed(cause),
        }
    }
}

/// What polling one interface came to.
#[derive(Clone, Debug, PartialEq, Eq)]
pub enum ReadOutcome {
    /// An endpoint of the interface delivered these bytes.
    Data(u8, Vec<u8>),
    /// Every input endpoint of the interface timed out.
    Timeout,
    /// A read on the interface failed for the given reason. Polling is over.
    Fatal(u8, TransportError),
}

/// Mathematical model of a [`ReadOutcome`].
pub enum ReadOutcomeView {
    Data(u8, Seq<u8>),
    Timeout,
    Fatal(u8, TransportError),
}

impl View for ReadOutcome {
    type V = ReadOutcomeView;

    open spec fn view(&self) -> ReadOutcomeView {
        match *self {
            ReadOutcome::Data(interface, bytes) => ReadOutcomeView::Data(interface, bytes@),
            ReadOutcome::Timeout => ReadOutcomeView::Timeout,
            ReadOutcome::Fatal(interface, cause) => ReadOutcomeView::Fatal(interface, cause),
        }
    }
}

/// What the caller is to do next.
#[derive(Clone, Copy, Debug, PartialEq, Eq, Structural)]
pub enum PollAction {
    /// Perform this read and report its result.
    Read(ReadRequest),
    /// No watched interface has an input endpoint: the pass is over without
    /// a read. Ask again.
    Idle,
    /// Cancellation was observed. Polling ended normally.
    Finished,
    /// Polling ended with this failure.
    Failed(Error),
}

/// Where the poller stands.
#[derive(Clone, Copy, Debug, PartialEq, Eq, Structural)]
pub enum PollPhase {
    /// No read is outstanding.
    Ready,
    /// A read was handed out and its result is awaited.
    Reading,
    /// Cancellation was observed.
    Cancelled,
    /// A read on the given interface failed for the given reason.
    Failed(u8, TransportError),
}

/// The index of the first interface at or after `from` that has an input
/// endpoint, or the number of interfaces if there is none.
pub open spec fn next_readable(interfaces: Seq<InterfaceInfoView>, from: int) -> int
    decreases interfaces.len() - from,
{
    if from < 0 || from >= interfaces.len() {
        interfaces.len() as int
    } else if interfaces[from].endpoints_in.len() > 0 {
        from
    } else {
        next_readable(interfaces, from + 1)
    }
}

/// The bytes that a successful read delivered: as many as were transferred,
/// from the start of the buffer, and never more than the buffer holds or the
/// read was sized for.
pub open spec fn delivered(buffer: Seq<u8>, transferred: usize, size: usize) -> Seq<u8> {
    let within_buffer = if transferred <= buffer.len() {
        transferred as int
    } else {
        buffer.len() as int
    };
    buffer.take(
        if within_buffer <= size {
            within_buffer
        } else {
            size as int
        },
    )
}

/// Mathematical model of the poller.
pub struct PollerState {
    /// The watched interfaces, in polling order.
    pub interfaces: Seq<InterfaceInfoView>,
    /// The size of every read, in bytes.
    pub read_size: usize,
    /// The timeout of every read, in milliseconds.
    pub timeout_ms: u64,
    /// The index of the interface whose turn it is; the number of interfaces
    /// between passes.
    pub interface: int,
    /// The index, among the input endpoints of that interface, of the one to
    /// read next.
    pub endpoint: int,
    /// Whether a read is outstanding, or polling has ended.
    pub phase: PollPhase,
}

impl PollerState {
    /// The poller before its first pass.
    pub open spec fn initial(interfaces: Seq<InterfaceInfoView>, read_size: usize, timeout_ms: u64) ->
        PollerState {
        PollerState {
            interfaces,
            read_size,
            timeout_ms,
            interface: interfaces.len() as int,
            endpoint: 0,
            phase: PollPhase::Ready,
        }
    }

    /// Whether a timeout and a read size can be handed to the transport: a
    /// timeout of zero would wait forever.
    pub open spec fn usable(read_size: usize, timeout_ms: u64) -> bool {
        &&& 1 <= timeout_ms <= MAX_TIMEOUT_MS
        &&& read_size <= MAX_READ_SIZE
    }

    /// The poller is between passes.
    pub open spec fn between_passes(self) -> bool {
        self.interface == self.interfaces.len()
    }

    /// The cursor stands on an input endpoint of a watched interface, or
    /// between passes; a read is outstanding only within a pass; every read
    /// is bounded; and no timeout has ended polling.
    pub open spec fn well_formed(self) -> bool {
        &&& Self::usable(self.read_size, self.timeout_ms)
        &&& !(self.phase matches PollPhase::Failed(_, TransportError::Timeout))
        &&& 0 <= self.interface <= self.interfaces.len()
        &&& if self.between_passes() {
            self.endpoint == 0 && !(self.phase is Reading)
        } else {
            0 <= self.endpoint < self.interfaces[self.interface].endpoints_in.len()
        }
    }

    /// The read at the cursor.
    pub open spec fn request(self) -> ReadRequest {
        ReadRequest {
            interface: self.interfaces[self.interface].number,
            endpoint: self.interfaces[self.interface].endpoints_in[self.endpoint],
            size: self.read_size,
            timeout_ms: self.timeout_ms,
        }
    }

    /// The state once the turn of the current interface is over.
    pub open spec fn pass_the_turn(self) -> PollerState {
        PollerState {
            interface: next_readable(self.interfaces, self.interface + 1),
            endpoint: 0,
            phase: PollPhase::Ready,
            ..self
        }
    }

    /// The state after the caller asked what to do, with the cancellation
    /// flag as it read it.
    ///
    /// Within a pass the flag is ignored and the read at the cursor becomes
    /// outstanding. Between passes a set flag ends polling, and otherwise the
    /// next pass begins at the first interface that has an input endpoint.
    pub open spec fn ask(self, cancelled: bool) -> PollerState {
        match self.phase {
            PollPhase::Ready => if !self.between_passes() {
                PollerState { phase: PollPhase::Reading, ..self }
            } else if cancelled {
                PollerState { phase: PollPhase::Cancelled, ..self }
            } else if next_readable(self.interfaces, 0) < self.interfaces.len() {
                PollerState {
                    interface: next_readable(self.interfaces, 0),
                    endpoint: 0,
                    phase: PollPhase::Reading,
                    ..self
                }
            } else {
                self
            },
            _ => self,
        }
    }

    /// What the caller is told when it asks: determined by the state that
    /// asking leads to.
    pub open spec fn action(self, cancelled: bool) -> PollAction {
        match self.ask(cancelled).phase {
            PollPhase::Ready => PollAction::Idle,
            PollPhase::Reading => PollAction::Read(self.ask(cancelled).request()),
            PollPhase::Cancelled => PollAction::Finished,
            PollPhase::Failed(interface, cause) => PollAction::Failed(
                Error::TransferFatal(interface, cause),
            ),
        }
    }

    /// The state after the outstanding read ended in `result`.
    ///
    /// Data ends the turn of the interface. A timeout moves on to its next
    /// input endpoint, and ends its turn if there is none. Any other failure
    /// ends polling. With no read outstanding nothing changes.
    pub open spec fn complete(self, result: TransferResultView) -> PollerState {
        match (self.phase, result) {
            (PollPhase::Reading, TransferResultView::Received { .. }) => self.pass_the_turn(),
            (PollPhase::Reading, TransferResultView::Failed(TransportError::Timeout)) => {
                if self.endpoint + 1 < self.interfaces[self.interface].endpoints_in.len() {
                    PollerState { endpoint: self.endpoint + 1, phase: PollPhase::Ready, ..self }
                } else {
                    self.pass_the_turn()
                }
            },
            (PollPhase::Reading, TransferResultView::Failed(cause)) => PollerState {
                phase: PollPhase::Failed(self.interfaces[self.interface].number, cause),
                ..self
            },
            _ => self,
        }
    }

    /// What the outstanding read came to for its interface, if that is
    /// settled: the data, a timeout once the last input endpoint timed out,
    /// or the failure.
    pub open spec fn outcome(self, result: TransferResultView) -> Option<ReadOutcomeView> {
        match (self.phase, result) {
            (PollPhase::Reading, TransferResultView::Received { buffer, transferred }) => Some(
                ReadOutcomeView::Data(
                    self.interfaces[self.interface].number,
                    delivered(buffer, transferred, self.read_size),
                ),
            ),
            (PollPhase::Reading, TransferResultView::Failed(TransportError::Timeout)) => {
                if self.endpoint + 1 < self.interfaces[self.interface].endpoints_in.len() {
                    None
                } else {
                    Some(ReadOutcomeView::Timeout)
                }
            },
            (PollPhase::Reading, TransferResultView::Failed(cause)) => Some(
                ReadOutcomeView::Fatal(self.interfaces[self.interface].number, cause),
            ),
            _ => None,
        }
    }
}

/// `next_readable` stays within the interfaces, and stops only at an
/// interface that has an input endpoint, skipping none that has one.
pub proof fn lemma_next_readable(interfaces: Seq<InterfaceInfoView>, from: int)
    requires
        0 <= from,
    ensures
        from <= next_readable(interfaces, from) <= interfaces.len() || (from > interfaces.len()
            && next_readable(interfaces, from) == interfaces.len()),
        next_readable(interfaces, from) < interfaces.len() ==> interfaces[next_readable(
            interfaces,
            from,
        )].endpoints_in.len() > 0,
        forall|k: int|
            from <= k < next_readable(interfaces, from) ==> (
            #[trigger] interfaces[k]).endpoints_in.len() == 0,
    decreases interfaces.len() - from,
{
    if from < interfaces.len() && interfaces[from].endpoints_in.len() == 0 {
        lemma_next_readable(interfaces, from + 1);
    }
}

/// Every step keeps the state well formed.
pub proof fn lemma_polling_keeps_well_formed(state: PollerState)
    requires
        state.well_formed(),
    ensures
        forall|cancelled: bool| #[trigger] state.ask(cancelled).well_formed(),
        forall|result: TransferResultView| #[trigger] state.complete(result).well_formed(),
{
    lemma_next_readable(state.interfaces, 0);
    lemma_next_readable(state.interfaces, state.interface + 1);
}

/// The watched interfaces as the model sees them.
pub open spec fn views_of(interfaces: Seq<InterfaceInfo>) -> Seq<InterfaceInfoView> {
    Seq::new(interfaces.len(), |i: int| interfaces[i]@)
}

/// Decides what is read next, and what each read's result means.
#[derive(Debug)]
pub struct InputPoller {
    interfaces: Vec<InterfaceInfo>,
    read_size: usize,
    timeout_ms: u64,
    interface: usize,
    endpoint: usize,
    phase: PollPhase,
}

impl View for InputPoller {
    type V = PollerState;

    closed spec fn view(&self) -> PollerState {
        PollerState {
            interfaces: views_of(self.interfaces@),
            read_size: self.read_size,
            timeout_ms: self.timeout_ms,
            interface: self.interface as int,
            endpoint: self.endpoint as int,
            phase: self.phase,
        }
    }
}

impl InputPoller {
    /// The invariant of the poller: that of its model.
    pub closed spec fn well_formed(&self) -> bool {
        self@.well_formed()
    }

    /// A poller for `interfaces`, in the order given, that sizes every read
    /// at `read_size` bytes and bounds it by `timeout_ms` milliseconds.
    ///
    /// There is no poller for a timeout of zero, which the transport takes
    /// for "wait forever", nor for a timeout or a read size beyond what the
    /// transport can be given.
    pub fn new(interfaces: Vec<InterfaceInfo>, read_size: usize, timeout_ms: u64) -> (poller:
        Option<InputPoller>)
        ensures
            poller is Some <==> PollerState::usable(read_size, timeout_ms),
            poller matches Some(p) ==> p.well_formed() && p@ == PollerState::initial(
                views_of(interfaces@),
                read_size,
                timeout_ms,
            ),
    {
        if timeout_ms == 0 || timeout_ms > MAX_TIMEOUT_MS || read_size > MAX_READ_SIZE {
            return None;
        }
        let interface = interfaces.len();
        Some(
            InputPoller {
                interfaces,
                read_size,
                timeout_ms,
                interface,
                endpoint: 0,
                phase: PollPhase::Ready,
            },
        )
    }

    /// The index of the first interface at or after `from` that has an input
    /// endpoint.
    fn find_readable(&self, from: usize) -> (found: usize)
        requires
            from <= self.interfaces.len(),
        ensures
            found == next_readable(self@.interfaces, from as int),
            from <= found <= self.interfaces.len(),
    {
        let mut i: usize = from;
        while i < self.interfaces.len()
            invariant
                from <= i <= self.interfaces.len(),
                next_readable(self@.interfaces, from as int) == next_readable(
                    self@.interfaces,
                    i as int,
                ),
            decreases self.interfaces.len() - i,
        {
            if self.interfaces[i].endpoints_in.len() > 0 {
                return i;
            }
            i += 1;
        }
        i
    }

    /// The read at the cursor.
    fn request(&self) -> (request: ReadRequest)
        requires
            self.well_formed(),
            !self@.between_passes(),
        ensures
            request == self@.request(),
    {
        let info = &self.interfaces[self.interface];
        ReadRequest {
            interface: info.number,
            endpoint: info.endpoints_in[self.endpoint],
            size: self.read_size,
            timeout_ms: self.timeout_ms,
        }
    }

    /// Ends the turn of the current interface.
    fn pass_the_turn(&mut self)
        requires
            old(self).well_formed(),
            !old(self)@.between_passes(),
        ensures
            final(self)@ == old(self)@.pass_the_turn(),
            final(self).well_formed(),
    {
        proof {
            lemma_next_readable(self@.interfaces, self@.interface + 1);
            assert(self.interface < self.interfaces.len());
        }
        let next = self.find_readable(self.interface + 1);
        self.interface = next;
        self.endpoint = 0;
        self.phase = PollPhase::Ready;
    }

    /// Says what to do next. `cancelled` is the cancellation flag as the
    /// caller reads it now; it is looked at between passes only.
    ///
    /// While a read is outstanding, its request is repeated: the read is to
    /// be performed once, and its result handed to [`InputPoller::complete`].
    pub fn next_action(&mut self, cancelled: bool) -> (action: PollAction)
        requires
            old(self).well_formed(),
        ensures
            final(self).well_formed(),
            final(self)@ == old(self)@.ask(cancelled),
            action == old(self)@.action(cancelled),
    {
        proof {
            lemma_polling_keeps_well_formed(self@);
        }
        match self.phase {
            PollPhase::Cancelled => PollAction::Finished,
            PollPhase::Failed(interface, cause) => PollAction::Failed(
                Error::TransferFatal(interface, cause),
            ),
            PollPhase::Reading => PollAction::Read(self.request()),
            PollPhase::Ready => {
                if self.interface < self.interfaces.len() {
                    self.phase = PollPhase::Reading;
                    PollAction::Read(self.request())
                } else if cancelled {
                    self.phase = PollPhase::Cancelled;
                    PollAction::Finished
                } else {
                    let first = self.find_readable(0);
                    if first < self.interfaces.len() {
                        self.interface = first;
                        self.endpoint = 0;
                        self.phase = PollPhase::Reading;
                        PollAction::Read(self.request())
                    } else {
                        PollAction::Idle
                    }
                }
            },
        }
    }

    /// Takes the result of the outstanding read and says what it came to for
    /// its interface, if that is settled.
    pub fn complete(&mut self, result: TransferResult) -> (outcome: Option<ReadOutcome>)
        requires
            old(self).well_formed(),
        ensures
            final(self).well_formed(),
            final(self)@ == old(self)@.complete(result@),
            match outcome {
                Some(settled) => old(self)@.outcome(result@) == Some(settled@),
                None => old(self)@.outcome(result@) is None,
            },
    {
        match self.phase {
            PollPhase::Reading => {},
            _ => {
                return None;
            },
        }
        assert(self.endpoint < self.interfaces[self.interface as int].endpoints_in.len());
        let number = self.interfaces[self.interface].number;
        match result {
            TransferResult::Received { buffer, transferred } => {
                let bytes = deliver(buffer, transferred, self.read_size);
                self.pass_the_turn();
                Some(ReadOutcome::Data(number, bytes))
            },
            TransferResult::Failed(TransportError::Timeout) => {
                if self.endpoint + 1 < self.interfaces[self.interface].endpoints_in.len() {
                    self.endpoint = self.endpoint + 1;
                    self.phase = PollPhase::Ready;
                    None
                } else {
                    self.pass_the_turn();
                    Some(ReadOutcome::Timeout)
                }
            },
            TransferResult::Failed(cause) => {
                self.phase = PollPhase::Failed(number, cause);
                Some(ReadOutcome::Fatal(number, cause))
            },
        }
    }

    /// Where the poller stands.
    pub fn phase(&self) -> (phase: PollPhase)
        ensures
            phase == self@.phase,
    {
        self.phase
    }
}

/// Cuts a read buffer down to the bytes that were transferred.
pub fn deliver(buffer: Vec<u8>, transferred: usize, size: usize) -> (bytes: Vec<u8>)
    ensures
        bytes@ == delivered(buffer@, transferred, size),
        bytes@.len() <= size,
        bytes@.len() <= transferred,
{
    let mut bytes = buffer;
    let mut length = if transferred <= bytes.len() {
        transferred
    } else {
        bytes.len()
    };
    if length > size {
        length = size;
    }
    bytes.truncate(length);
    bytes
}

} // verus!
