//! The control transfer that switches the tablet into reporting mode.
//!
//! Two firmware revisions are known. They want different requests, and they
//! differ in what a failed transfer means, so both the request and the
//! reaction to a failure are chosen by configuration.

use crate::error::{Error, TransportError};
use vstd::prelude::*;

verus! {

/// Timeout of the handshake transfer, in milliseconds.
pub const HANDSHAKE_TIMEOUT_MS: u64 = 1000;

/// Pause before and after the handshake of the second firmware revision, in
/// milliseconds.
pub const SETTLE_DELAY_MS: u64 = 500;

/// A fully specified control transfer from host to device.
#[derive(Clone, Debug, PartialEq, Eq)]
pub struct HandshakeMessage {
    pub request_type: u8,
    pub request: u8,
    pub value: u16,
    /// The interface that the request addresses.
    pub index: u16,
    pub payload: Vec<u8>,
    pub timeout_ms: u64,
}

/// Mathematical model of a [`HandshakeMessage`].
pub struct HandshakeMessageView {
    pub request_type: u8,
    pub request: u8,
    pub value: u16,
    pub index: u16,
    pub payload: Seq<u8>,
    pub timeout_ms: u64,
}

impl View for HandshakeMessage {
    type V = HandshakeMessageView;

    open spec fn view(&self) -> HandshakeMessageView {
        HandshakeMessageView {
            request_type: self.request_type,
            request: self.request,
            value: self.value,
            index: self.index,
            payload: self.payload@,
            timeout_ms: self.timeout_ms,
        }
    }
}

/// The firmware revision that the handshake is meant for.
#[derive(Clone, Copy, Debug, PartialEq, Eq, Structural)]
pub enum HandshakeProfile {
    /// Eight bytes of payload, no pauses, reports of up to 64 bytes.
    VariantA,
    /// Two bytes of payload, a pause on either side of the transfer, reports
    /// of up to 8 bytes.
    VariantB,
}

/// What to make of a handshake transfer that failed.
#[derive(Clone, Copy, Debug, PartialEq, Eq, Structural)]
pub enum FailurePolicy {
    /// The device will not report without the handshake: give up.
    Fatal,
    /// The firmware is known to report even though the transfer errors: warn
    /// and go on.
    Tolerated,
}

/// The handshake as configured.
#[derive(Clone, Copy, Debug, PartialEq, Eq, Structural)]
pub struct HandshakeConfig {
    pub profile: HandshakeProfile,
    pub on_failure: FailurePolicy,
}

/// One step of a handshake.
#[derive(Clone, Debug, PartialEq, Eq)]
pub enum HandshakeStep {
    /// Wait this many milliseconds.
    Settle(u64),
    /// Send this control transfer and judge its outcome.
    Transfer(HandshakeMessage),
}

/// Mathematical model of a [`HandshakeStep`].
pub enum HandshakeStepView {
    Settle(u64),
    Transfer(HandshakeMessageView),
}

impl View for HandshakeStep {
    type V = HandshakeStepView;

    open spec fn view(&self) -> HandshakeStepView {
        match *self {
            HandshakeStep::Settle(delay) => HandshakeStepView::Settle(delay),
            HandshakeStep::Transfer(message) => HandshakeStepView::Transfer(message@),
        }
    }
}

/// How the caller is to go on after the handshake transfer.
#[derive(Clone, Copy, Debug, PartialEq, Eq, Structural)]
pub enum HandshakeVerdict {
    /// The transfer succeeded.
    Proceed,
    /// The transfer failed for the given reason, and the configuration says
    /// to go on regardless. The reason is handed out so that it can be shown.
    ProceedDespite(TransportError),
    /// The transfer failed and the handshake with it.
    Abort(Error),
}

/// The request that switches the given firmware into reporting mode.
pub open spec fn message_of(profile: HandshakeProfile) -> HandshakeMessageView {
    match profile {
        HandshakeProfile::VariantA => HandshakeMessageView {
            request_type: 0x21,
            request: 0x09,
            value: 0x0302,
            index: 2,
            payload: seq![0x02u8, 0x02u8, 0xB5u8, 0x02u8, 0x00u8, 0x00u8, 0x00u8, 0x00u8],
            timeout_ms: 1000,
        },
        HandshakeProfile::VariantB => HandshakeMessageView {
            request_type: 0x21,
            request: 0x09,
            value: 0x0202,
            index: 2,
            payload: seq![0x02u8, 0x01u8],
            timeout_ms: 1000,
        },
    }
}

/// The pause that the given firmware wants on either side of the transfer,
/// in milliseconds.
pub open spec fn settle_delay_of(profile: HandshakeProfile) -> u64 {
    match profile {
        HandshakeProfile::VariantA => 0,
        HandshakeProfile::VariantB => 500,
    }
}

/// The steps of a handshake with the given firmware.
pub open spec fn steps_of(profile: HandshakeProfile) -> Seq<HandshakeStepView> {
    if settle_delay_of(profile) == 0 {
        seq![HandshakeStepView::Transfer(message_of(profile))]
    } else {
        seq![
            HandshakeStepView::Settle(settle_delay_of(profile)),
            HandshakeStepView::Transfer(message_of(profile)),
            HandshakeStepView::Settle(settle_delay_of(profile)),
        ]
    }
}

/// The number of control transfers among the steps.
pub open spec fn transfers_in(steps: Seq<HandshakeStepView>) -> nat
    decreases steps.len(),
{
    if steps.len() == 0 {
        0
    } else {
        transfers_in(steps.drop_last()) + if steps.last() is Transfer {
            1nat
        } else {
            0nat
        }
    }
}

/// Whether the transport will put the message on the bus as it stands: the
/// request type says host to device, the payload length fits the 16 bits of
/// the length field, and the timeout is neither zero, which would wait
/// forever, nor beyond the 32 bits that the transport keeps of it.
pub open spec fn sendable(message: HandshakeMessageView) -> bool {
    &&& message.request_type & 0x80 == 0
    &&& message.payload.len() <= 0xFFFF
    &&& 1 <= message.timeout_ms <= 0xFFFF_FFFF
}

/// The verdict on a transfer that ended in `outcome`, under `policy`.
pub open spec fn verdict_of(policy: FailurePolicy, outcome: Result<usize, TransportError>) ->
    HandshakeVerdict {
    match outcome {
        Ok(_) => HandshakeVerdict::Proceed,
        Err(cause) => match policy {
            FailurePolicy::Fatal => HandshakeVerdict::Abort(Error::HandshakeFailed(cause)),
            FailurePolicy::Tolerated => HandshakeVerdict::ProceedDespite(cause),
        },
    }
}

/// A handshake sends exactly one control transfer, whatever the firmware,
/// and that transfer is one the transport accepts.
pub proof fn lemma_exactly_one_transfer(profile: HandshakeProfile)
    ensures
        transfers_in(steps_of(profile)) == 1,
        sendable(message_of(profile)),
{
    reveal_with_fuel(transfers_in, 4);
    assert(0x21u8 & 0x80 == 0) by (bit_vector);
}

impl HandshakeProfile {
    /// The request for this firmware.
    pub fn message(&self) -> (message: HandshakeMessage)
        ensures
            message@ == message_of(*self),
    {
        match self {
            HandshakeProfile::VariantA => {
                let payload: Vec<u8> = vec![0x02, 0x02, 0xB5, 0x02, 0x00, 0x00, 0x00, 0x00];
                HandshakeMessage {
                    request_type: 0x21,
                    request: 0x09,
                    value: 0x0302,
                    index: 2,
                    payload,
                    timeout_ms: HANDSHAKE_TIMEOUT_MS,
                }
            },
            HandshakeProfile::VariantB => {
                let payload: Vec<u8> = vec![0x02, 0x01];
                HandshakeMessage {
                    request_type: 0x21,
                    request: 0x09,
                    value: 0x0202,
                    index: 2,
                    payload,
                    timeout_ms: HANDSHAKE_TIMEOUT_MS,
                }
            },
        }
    }

    /// The pause on either side of the transfer, in milliseconds.
    pub fn settle_delay_ms(&self) -> (delay: u64)
        ensures
            delay == settle_delay_of(*self),
    {
        match self {
            HandshakeProfile::VariantA => 0,
            HandshakeProfile::VariantB => SETTLE_DELAY_MS,
        }
    }

    /// The size of the buffer for one input report of this firmware.
    pub fn read_size(&self) -> (size: usize)
        ensures
            size == match *self {
                HandshakeProfile::VariantA => 64usize,
                HandshakeProfile::VariantB => 8usize,
            },
    {
        match self {
            HandshakeProfile::VariantA => 64,
            HandshakeProfile::VariantB => 8,
        }
    }

    /// The steps of the handshake, in order.
    pub fn steps(&self) -> (steps: Vec<HandshakeStep>)
        ensures
            steps@.len() == steps_of(*self).len(),
            forall|i: int| 0 <= i < steps@.len() ==> (#[trigger] steps@[i])@ == steps_of(*self)[i],
    {
        let delay = self.settle_delay_ms();
        let mut steps: Vec<HandshakeStep> = Vec::new();
        if delay != 0 {
            steps.push(HandshakeStep::Settle(delay));
        }
        steps.push(HandshakeStep::Transfer(self.message()));
        if delay != 0 {
            steps.push(HandshakeStep::Settle(delay));
        }
        steps
    }
}

impl HandshakeConfig {
    /// The first firmware revision, for which a failed handshake is fatal.
    pub fn variant_a() -> (config: HandshakeConfig)
        ensures
            config.profile == HandshakeProfile::VariantA,
            config.on_failure == FailurePolicy::Fatal,
    {
        HandshakeConfig { profile: HandshakeProfile::VariantA, on_failure: FailurePolicy::Fatal }
    }

    /// The second firmware revision, which reports even though the handshake
    /// transfer errors.
    pub fn variant_b() -> (config: HandshakeConfig)
        ensures
            config.profile == HandshakeProfile::VariantB,
            config.on_failure == FailurePolicy::Tolerated,
    {
        HandshakeConfig {
            profile: HandshakeProfile::VariantB,
            on_failure: FailurePolicy::Tolerated,
        }
    }

    /// Judges the outcome of the handshake transfer: the number of bytes that
    /// the transport wrote, or the reason it gave up.
    pub fn conclude(&self, outcome: Result<usize, TransportError>) -> (verdict: HandshakeVerdict)
        ensures
            verdict == verdict_of(self.on_failure, outcome),
    {
        match outcome {
            Ok(_) => HandshakeVerdict::Proceed,
            Err(cause) => match self.on_failure {
                FailurePolicy::Fatal => HandshakeVerdict::Abort(Error::HandshakeFailed(cause)),
                FailurePolicy::Tolerated => HandshakeVerdict::ProceedDespite(cause),
            },
        }
    }
}

} // verus!
