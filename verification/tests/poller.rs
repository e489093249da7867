use ftd_core::error::{Error, TransportError};
use ftd_core::poller::{
    deliver, InputPoller, PollAction, PollPhase, ReadOutcome, ReadRequest, TransferResult,
    MAX_READ_SIZE, MAX_TIMEOUT_MS, READ_TIMEOUT_MS,
};
use ftd_core::topology::InterfaceInfo;

fn watched(number: u8, endpoints_in: Vec<u8>) -> InterfaceInfo {
    InterfaceInfo { number, endpoints_in, endpoints_out: vec![] }
}

fn poller(interfaces: Vec<InterfaceInfo>) -> InputPoller {
    match InputPoller::new(interfaces, 8, 10) {
        Some(poller) => poller,
        None => panic!("the configuration is usable"),
    }
}

fn read(interface: u8, endpoint: u8) -> PollAction {
    PollAction::Read(ReadRequest { interface, endpoint, size: 8, timeout_ms: 10 })
}

fn received(bytes: &[u8]) -> TransferResult {
    let mut buffer = vec![0u8; 8];
    buffer[..bytes.len()].copy_from_slice(bytes);
    TransferResult::Received { buffer, transferred: bytes.len() }
}

fn timed_out() -> TransferResult {
    TransferResult::Failed(TransportError::Timeout)
}

#[test]
fn read_timeout_is_tens_of_milliseconds() {
    assert_eq!(READ_TIMEOUT_MS, 10);
}

#[test]
fn zero_timeout_is_refused() {
    assert!(InputPoller::new(vec![watched(1, vec![0x81])], 8, 0).is_none());
}

#[test]
fn timeout_beyond_the_transport_is_refused() {
    assert!(InputPoller::new(vec![], 8, MAX_TIMEOUT_MS).is_some());
    assert!(InputPoller::new(vec![], 8, MAX_TIMEOUT_MS + 1).is_none());
    assert!(InputPoller::new(vec![], 8, 1).is_some());
}

#[test]
fn read_size_beyond_the_transport_is_refused() {
    assert!(InputPoller::new(vec![], MAX_READ_SIZE, 10).is_some());
    assert!(InputPoller::new(vec![], MAX_READ_SIZE + 1, 10).is_none());
    assert!(InputPoller::new(vec![], 0, 10).is_some());
}

#[test]
fn first_pass_begins_at_the_first_interface() {
    let mut poller = poller(vec![watched(1, vec![0x83]), watched(2, vec![0x84])]);
    assert_eq!(poller.phase(), PollPhase::Ready);
    assert_eq!(poller.next_action(false), read(1, 0x83));
    assert_eq!(poller.phase(), PollPhase::Reading);
}

#[test]
fn request_carries_the_configured_size_and_timeout() {
    let mut poller = match InputPoller::new(vec![watched(2, vec![0x84])], 64, 25) {
        Some(poller) => poller,
        None => panic!("the configuration is usable"),
    };
    assert_eq!(
        poller.next_action(false),
        PollAction::Read(ReadRequest { interface: 2, endpoint: 0x84, size: 64, timeout_ms: 25 })
    );
}

#[test]
fn data_is_reported_with_its_interface_and_passes_the_turn() {
    let mut poller = poller(vec![watched(1, vec![0x83]), watched(2, vec![0x84])]);
    poller.next_action(false);
    assert_eq!(
        poller.complete(received(&[1, 2, 3])),
        Some(ReadOutcome::Data(1, vec![1, 2, 3]))
    );
    assert_eq!(poller.next_action(false), read(2, 0x84));
    assert_eq!(poller.complete(received(&[9])), Some(ReadOutcome::Data(2, vec![9])));
    assert_eq!(poller.next_action(false), read(1, 0x83));
}

#[test]
fn empty_transfer_is_data_without_bytes() {
    let mut poller = poller(vec![watched(1, vec![0x83])]);
    poller.next_action(false);
    assert_eq!(poller.complete(received(&[])), Some(ReadOutcome::Data(1, vec![])));
}

#[test]
fn endpoints_are_tried_in_declared_order_until_one_delivers() {
    let mut poller = poller(vec![watched(1, vec![0x81, 0x82, 0x83]), watched(2, vec![0x84])]);
    assert_eq!(poller.next_action(false), read(1, 0x81));
    assert_eq!(poller.complete(timed_out()), None);
    assert_eq!(poller.next_action(false), read(1, 0x82));
    assert_eq!(poller.complete(received(&[7, 7])), Some(ReadOutcome::Data(1, vec![7, 7])));
    assert_eq!(poller.next_action(false), read(2, 0x84));
}

#[test]
fn timeout_on_every_endpoint_is_a_timeout_for_the_interface() {
    let mut poller = poller(vec![watched(1, vec![0x81, 0x82]), watched(2, vec![0x84])]);
    assert_eq!(poller.next_action(false), read(1, 0x81));
    assert_eq!(poller.complete(timed_out()), None);
    assert_eq!(poller.next_action(false), read(1, 0x82));
    assert_eq!(poller.complete(timed_out()), Some(ReadOutcome::Timeout));
    assert_eq!(poller.next_action(false), read(2, 0x84));
}

#[test]
fn silent_interface_leaves_the_others_as_a_talking_one_does() {
    let interfaces = vec![watched(1, vec![0x81, 0x82]), watched(2, vec![0x84, 0x85])];
    let mut silent = poller(interfaces.clone());
    silent.next_action(false);
    silent.complete(timed_out());
    silent.next_action(false);
    silent.complete(timed_out());
    let mut talking = poller(interfaces);
    talking.next_action(false);
    talking.complete(received(&[1]));
    for _ in 0..3 {
        assert_eq!(silent.next_action(false), talking.next_action(false));
        assert_eq!(silent.complete(timed_out()), talking.complete(timed_out()));
    }
}

#[test]
fn fatal_error_ends_polling_on_every_interface() {
    let mut poller = poller(vec![watched(1, vec![0x83]), watched(2, vec![0x84])]);
    poller.next_action(false);
    assert_eq!(
        poller.complete(TransferResult::Failed(TransportError::NoDevice)),
        Some(ReadOutcome::Fatal(1, TransportError::NoDevice))
    );
    assert_eq!(poller.phase(), PollPhase::Failed(1, TransportError::NoDevice));
    let failure = PollAction::Failed(Error::TransferFatal(1, TransportError::NoDevice));
    assert_eq!(poller.next_action(false), failure);
    assert_eq!(poller.next_action(true), failure);
    assert_eq!(poller.complete(received(&[1])), None);
    assert_eq!(poller.next_action(false), failure);
}

#[test]
fn fatal_error_on_a_first_endpoint_stops_before_the_second() {
    let mut poller = poller(vec![watched(1, vec![0x81, 0x82])]);
    poller.next_action(false);
    assert_eq!(
        poller.complete(TransferResult::Failed(TransportError::Pipe)),
        Some(ReadOutcome::Fatal(1, TransportError::Pipe))
    );
    assert_eq!(
        poller.next_action(false),
        PollAction::Failed(Error::TransferFatal(1, TransportError::Pipe))
    );
}

#[test]
fn every_failure_but_a_timeout_is_fatal() {
    let causes = [
        TransportError::Io,
        TransportError::InvalidParam,
        TransportError::Access,
        TransportError::NoDevice,
        TransportError::NotFound,
        TransportError::Busy,
        TransportError::Overflow,
        TransportError::Pipe,
        TransportError::Interrupted,
        TransportError::NoMem,
        TransportError::NotSupported,
        TransportError::BadDescriptor,
        TransportError::Other,
    ];
    for cause in causes {
        let mut poller = poller(vec![watched(2, vec![0x84])]);
        poller.next_action(false);
        assert_eq!(
            poller.complete(TransferResult::Failed(cause)),
            Some(ReadOutcome::Fatal(2, cause))
        );
    }
}

#[test]
fn cancellation_before_the_first_pass_reads_nothing() {
    let mut poller = poller(vec![watched(1, vec![0x83])]);
    assert_eq!(poller.next_action(true), PollAction::Finished);
    assert_eq!(poller.phase(), PollPhase::Cancelled);
    assert_eq!(poller.next_action(false), PollAction::Finished);
}

#[test]
fn cancellation_is_looked_at_between_passes_only() {
    let mut poller = poller(vec![watched(1, vec![0x83]), watched(2, vec![0x84])]);
    assert_eq!(poller.next_action(false), read(1, 0x83));
    assert_eq!(poller.complete(timed_out()), Some(ReadOutcome::Timeout));
    assert_eq!(poller.next_action(true), read(2, 0x84));
    assert_eq!(poller.complete(timed_out()), Some(ReadOutcome::Timeout));
    assert_eq!(poller.next_action(true), PollAction::Finished);
}

#[test]
fn pass_takes_no_more_reads_than_there_are_input_endpoints() {
    let interfaces =
        vec![watched(1, vec![0x81, 0x82]), watched(2, vec![]), watched(3, vec![0x83])];
    let mut poller = poller(interfaces);
    let mut reads = 0;
    let mut first = true;
    loop {
        match poller.next_action(!first) {
            PollAction::Read(_) => {
                reads += 1;
                poller.complete(timed_out());
            }
            PollAction::Finished => break,
            other => panic!("unexpected {:?}", other),
        }
        first = false;
    }
    assert_eq!(reads, 3);
}

#[test]
fn interface_without_input_endpoints_is_passed_over() {
    let mut poller =
        poller(vec![watched(0, vec![]), watched(1, vec![0x83]), watched(2, vec![])]);
    assert_eq!(poller.next_action(false), read(1, 0x83));
    assert_eq!(poller.complete(timed_out()), Some(ReadOutcome::Timeout));
    assert_eq!(poller.next_action(false), read(1, 0x83));
    assert_eq!(poller.complete(received(&[5])), Some(ReadOutcome::Data(1, vec![5])));
    assert_eq!(poller.next_action(true), PollAction::Finished);
}

#[test]
fn nothing_to_read_is_idle_until_cancelled() {
    let mut poller = poller(vec![watched(0, vec![])]);
    assert_eq!(poller.next_action(false), PollAction::Idle);
    assert_eq!(poller.next_action(false), PollAction::Idle);
    assert_eq!(poller.next_action(true), PollAction::Finished);
    let mut nothing_watched = self::poller(vec![]);
    assert_eq!(nothing_watched.next_action(false), PollAction::Idle);
}

#[test]
fn asking_again_repeats_the_outstanding_read() {
    let mut poller = poller(vec![watched(1, vec![0x81, 0x82])]);
    assert_eq!(poller.next_action(false), read(1, 0x81));
    assert_eq!(poller.next_action(false), read(1, 0x81));
    assert_eq!(poller.next_action(true), read(1, 0x81));
    assert_eq!(poller.complete(timed_out()), None);
    assert_eq!(poller.next_action(false), read(1, 0x82));
}

#[test]
fn result_without_an_outstanding_read_is_ignored() {
    let mut poller = poller(vec![watched(1, vec![0x81])]);
    assert_eq!(poller.complete(received(&[1])), None);
    assert_eq!(poller.complete(TransferResult::Failed(TransportError::Io)), None);
    assert_eq!(poller.phase(), PollPhase::Ready);
    assert_eq!(poller.next_action(false), read(1, 0x81));
}

#[test]
fn data_is_cut_to_the_bytes_transferred() {
    assert_eq!(deliver(vec![1, 2, 3, 4, 5, 6, 7, 8], 3, 8), vec![1, 2, 3]);
    assert_eq!(deliver(vec![1, 2, 3, 4], 0, 8), Vec::<u8>::new());
    assert_eq!(deliver(vec![1, 2, 3, 4], 4, 8), vec![1, 2, 3, 4]);
}

#[test]
fn data_is_never_longer_than_the_buffer_or_the_read_size() {
    assert_eq!(deliver(vec![1, 2, 3, 4], 9, 8), vec![1, 2, 3, 4]);
    assert_eq!(deliver(vec![1, 2, 3, 4, 5, 6], 6, 4), vec![1, 2, 3, 4]);
    assert_eq!(deliver(vec![1, 2, 3], usize::MAX, usize::MAX), vec![1, 2, 3]);
    assert_eq!(deliver(vec![1, 2, 3], 2, 0), Vec::<u8>::new());
}

#[test]
fn oversized_report_is_cut_to_the_read_size() {
    let mut poller = poller(vec![watched(1, vec![0x81])]);
    poller.next_action(false);
    let buffer: Vec<u8> = (0..64).collect();
    assert_eq!(
        poller.complete(TransferResult::Received { buffer, transferred: 64 }),
        Some(ReadOutcome::Data(1, vec![0, 1, 2, 3, 4, 5, 6, 7]))
    );
}
