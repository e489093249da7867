//! The failure taxonomy shared by every component.

use vstd::prelude::*;

verus! {

/// The reason a transport gave for refusing or abandoning one request.
///
/// The variants are the failure codes of the underlying bus library, carried
/// here as plain values.
#[derive(Clone, Copy, Debug, PartialEq, Eq, Structural)]
pub enum TransportError {
    /// Input/output error.
    Io,
    /// Invalid parameter.
    InvalidParam,
    /// Access denied.
    Access,
    /// No such device; it may have been disconnected.
    NoDevice,
    /// Entity not found.
    NotFound,
    /// Resource busy.
    Busy,
    /// The request did not complete within its timeout.
    Timeout,
    /// The device offered more data than the buffer holds.
    Overflow,
    /// The endpoint halted.
    Pipe,
    /// A system call was interrupted.
    Interrupted,
    /// Insufficient memory.
    NoMem,
    /// Not supported on this platform.
    NotSupported,
    /// The device returned a malformed descriptor.
    BadDescriptor,
    /// Any other failure.
    Other,
}

impl TransportError {
    /// Whether this failure only means "no data yet".
    pub fn is_timeout(&self) -> (b: bool)
        ensures
            b == (*self is Timeout),
    {
        match self {
            TransportError::Timeout => true,
            _ => false,
        }
    }
}

/// Everything that can go wrong between looking for the tablet and the end of
/// polling.
#[derive(Clone, Copy, Debug, PartialEq, Eq, Structural)]
pub enum Error {
    /// No attached device carries the wanted vendor and product identifiers.
    DeviceNotFound,
    /// The transport could not list the attached devices, or could not
    /// describe one of them.
    EnumerationFailed(TransportError),
    /// The matching device could not be opened.
    OpenFailed(TransportError),
    /// The active configuration descriptor could not be retrieved.
    DescriptorReadFailed(TransportError),
    /// Detaching the kernel driver from, or claiming, the given interface
    /// failed.
    InterfaceClaimFailed(u8, TransportError),
    /// The handshake control transfer failed.
    HandshakeFailed(TransportError),
    /// A read found no data within its timeout.
    Timeout,
    /// A read on the given interface failed for a reason other than a
    /// timeout.
    TransferFatal(u8, TransportError),
}

impl Error {
    /// Whether the failure ends the phase it occurred in. Only a timeout does
    /// not.
    pub fn is_fatal(&self) -> (b: bool)
        ensures
            b == !(*self is Timeout),
    {
        match self {
            Error::Timeout => false,
            _ => true,
        }
    }
}

} // verus!
