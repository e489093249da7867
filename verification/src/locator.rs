//! Finding the tablet among the attached devices.

use crate::error::{Error, TransportError};
use vstd::prelude::*;

verus! {

/// Vendor identifier of the tablet.
pub const VENDOR_ID: u16 = 0x08f2;

/// Product identifier of the tablet.
pub const PRODUCT_ID: u16 = 0x6811;

/// The mass-storage interface.
pub const MASS_STORAGE_INTERFACE: u8 = 0;

/// The interface that reports the buttons.
pub const BUTTONS_INTERFACE: u8 = 1;

/// The interface that reports the pen, and that the handshake addresses.
pub const TABLET_INTERFACE: u8 = 2;

/// The pair of identifiers by which a device model is recognised.
#[derive(Clone, Copy, Debug, PartialEq, Eq, Structural)]
pub struct DeviceId {
    pub vendor_id: u16,
    pub product_id: u16,
}

/// What the transport said of one attached device when asked for its device
/// descriptor.
#[derive(Clone, Copy, Debug, PartialEq, Eq, Structural)]
pub enum DeviceProbe {
    /// The descriptor was read and names these identifiers.
    Described(DeviceId),
    /// The descriptor could not be read.
    Unreadable(TransportError),
}

/// The first `count` devices were all described, and none of them is the
/// wanted one.
pub open spec fn passed_over(devices: Seq<DeviceProbe>, wanted: DeviceId, count: int) -> bool {
    forall|j: int|
        0 <= j < count ==> (#[trigger] devices[j]) is Described && devices[j]
            != DeviceProbe::Described(wanted)
}

/// What a search through `devices`, in enumeration order, comes to: the
/// position of the first device that carries the wanted identifiers, unless a
/// device before it could not be described.
pub open spec fn search_result(devices: Seq<DeviceProbe>, wanted: DeviceId) -> Result<int, Error>
    decreases devices.len(),
{
    if devices.len() == 0 {
        Err(Error::DeviceNotFound)
    } else {
        match search_result(devices.drop_last(), wanted) {
            Err(Error::DeviceNotFound) => match devices.last() {
                DeviceProbe::Unreadable(cause) => Err(Error::EnumerationFailed(cause)),
                DeviceProbe::Described(id) => if id == wanted {
                    Ok(devices.len() - 1)
                } else {
                    Err(Error::DeviceNotFound)
                },
            },
            decided => decided,
        }
    }
}

/// The search ends at the first device that either matches or cannot be
/// described; it fails with `DeviceNotFound` exactly if there is no such
/// device.
pub proof fn lemma_search_result(devices: Seq<DeviceProbe>, wanted: DeviceId)
    ensures
        match search_result(devices, wanted) {
            Ok(position) => {
                &&& 0 <= position < devices.len()
                &&& passed_over(devices, wanted, position)
                &&& devices[position] == DeviceProbe::Described(wanted)
            },
            Err(Error::EnumerationFailed(cause)) => exists|position: int|
                {
                    &&& 0 <= position < devices.len()
                    &&& passed_over(devices, wanted, position)
                    &&& #[trigger] devices[position] == DeviceProbe::Unreadable(cause)
                },
            Err(Error::DeviceNotFound) => passed_over(devices, wanted, devices.len() as int),
            Err(_) => false,
        },
    decreases devices.len(),
{
    if devices.len() > 0 {
        let earlier = devices.drop_last();
        let last = devices.len() - 1;
        lemma_search_result(earlier, wanted);
        assert forall|count: int| 0 <= count <= last && passed_over(earlier, wanted, count) implies
            #[trigger] passed_over(devices, wanted, count) by {
            assert forall|j: int| 0 <= j < count implies (#[trigger] devices[j]) is Described
                && devices[j] != DeviceProbe::Described(wanted) by {
                assert(devices[j] == earlier[j]);
            }
        }
        match search_result(earlier, wanted) {
            Ok(position) => {
                assert(passed_over(devices, wanted, position));
                assert(devices[position] == earlier[position]);
            },
            Err(Error::EnumerationFailed(cause)) => {
                let position = choose|position: int|
                    {
                        &&& 0 <= position < earlier.len()
                        &&& passed_over(earlier, wanted, position)
                        &&& #[trigger] earlier[position] == DeviceProbe::Unreadable(cause)
                    };
                assert(passed_over(devices, wanted, position));
                assert(devices[position] == DeviceProbe::Unreadable(cause));
            },
            Err(_) => {
                assert(passed_over(devices, wanted, last));
                match devices.last() {
                    DeviceProbe::Unreadable(cause) => {
                        assert(devices[last] == DeviceProbe::Unreadable(cause));
                    },
                    DeviceProbe::Described(id) => {
                        if id != wanted {
                            assert(passed_over(devices, wanted, devices.len() as int));
                        }
                    },
                }
            },
        }
    }
}

/// A search that the first `count` devices decide is decided the same way by
/// all of them.
pub proof fn lemma_search_settled(devices: Seq<DeviceProbe>, wanted: DeviceId, count: int)
    requires
        0 <= count <= devices.len(),
        search_result(devices.take(count), wanted) != Err::<int, Error>(Error::DeviceNotFound),
    ensures
        search_result(devices, wanted) == search_result(devices.take(count), wanted),
    decreases devices.len() - count,
{
    if count < devices.len() {
        assert(devices.take(count + 1).drop_last() =~= devices.take(count));
        lemma_search_settled(devices, wanted, count + 1);
    } else {
        assert(devices.take(count) =~= devices);
    }
}

/// Picks the device to open.
///
/// `listing` is what enumeration returned: the attached devices in the
/// transport's order, each with the outcome of reading its device descriptor,
/// or the reason the transport could not list them. Devices that follow the
/// one that decides the search are not looked at.
pub fn locate(listing: &Result<Vec<DeviceProbe>, TransportError>, wanted: DeviceId) -> (found:
    Result<usize, Error>)
    ensures
        match *listing {
            Ok(devices) => match search_result(devices@, wanted) {
                Ok(position) => found matches Ok(index) && index == position,
                Err(error) => found matches Err(reason) && reason == error,
            },
            Err(cause) => found matches Err(reason) && reason == Error::EnumerationFailed(cause),
        },
        match found {
            Ok(index) => listing matches Ok(devices) && {
                &&& index < devices@.len()
                &&& passed_over(devices@, wanted, index as int)
                &&& devices@[index as int] == DeviceProbe::Described(wanted)
            },
            Err(Error::DeviceNotFound) => listing matches Ok(devices) && passed_over(
                devices@,
                wanted,
                devices@.len() as int,
            ),
            Err(Error::EnumerationFailed(cause)) => match *listing {
                Ok(devices) => exists|position: int|
                    {
                        &&& 0 <= position < devices@.len()
                        &&& passed_over(devices@, wanted, position)
                        &&& #[trigger] devices@[position] == DeviceProbe::Unreadable(cause)
                    },
                Err(reason) => reason == cause,
            },
            Err(_) => false,
        },
{
    match listing {
        Err(cause) => Err(Error::EnumerationFailed(*cause)),
        Ok(devices) => {
            proof {
                lemma_search_result(devices@, wanted);
            }
            let mut i: usize = 0;
            while i < devices.len()
                invariant
                    0 <= i <= devices.len(),
                    *listing == Ok::<Vec<DeviceProbe>, TransportError>(*devices),
                    search_result(devices@.take(i as int), wanted) == Err::<int, Error>(
                        Error::DeviceNotFound,
                    ),
                decreases devices.len() - i,
            {
                proof {
                    assert(devices@.take(i as int + 1).drop_last() =~= devices@.take(i as int));
                }
                match devices[i] {
                    DeviceProbe::Unreadable(cause) => {
                        proof {
                            lemma_search_settled(devices@, wanted, i as int + 1);
                            lemma_search_result(devices@, wanted);
                        }
                        return Err(Error::EnumerationFailed(cause));
                    },
                    DeviceProbe::Described(id) => {
                        if id.vendor_id == wanted.vendor_id && id.product_id == wanted.product_id {
                            proof {
                                lemma_search_settled(devices@, wanted, i as int + 1);
                                lemma_search_result(devices@, wanted);
                            }
                            return Ok(i);
                        }
                    },
                }
                i += 1;
            }
            assert(devices@.take(devices.len() as int) =~= devices@);
            Err(Error::DeviceNotFound)
        },
    }
}

/// Turns the outcome of opening the chosen device into the startup's verdict.
pub fn confirm_open(outcome: Result<(), TransportError>) -> (verdict: Result<(), Error>)
    ensures
        verdict == match outcome {
            Ok(()) => Ok::<(), Error>(()),
            Err(cause) => Err::<(), Error>(Error::OpenFailed(cause)),
        },
{
    match outcome {
        Ok(()) => Ok(()),
        Err(cause) => Err(Error::OpenFailed(cause)),
    }
}

} // verus!
