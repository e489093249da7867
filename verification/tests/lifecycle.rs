use ftd_core::error::{Error, TransportError};
use ftd_core::lifecycle::{
    ClaimProgress, ClaimReply, ClaimRequest, ClaimStage, ClaimedInterface,
    InterfaceLifecycleManager, TeardownPlan,
};

/// Claims `interfaces` against a pretend kernel that has a driver bound to
/// each interface in `bound`, and says yes to everything.
fn claim_all(manager: &mut InterfaceLifecycleManager, interfaces: Vec<u8>, bound: &[u8]) {
    let mut progress = manager.begin_claim(interfaces);
    loop {
        let reply = match progress {
            ClaimProgress::Request(ClaimRequest::QueryKernelDriver(number)) => {
                ClaimReply::DriverState(bound.contains(&number))
            }
            ClaimProgress::Request(_) => ClaimReply::Done,
            ClaimProgress::Complete => return,
            ClaimProgress::Failed(error) => panic!("unexpected {:?}", error),
        };
        progress = manager.advance(reply);
    }
}

#[test]
fn new_manager_has_nothing_to_undo() {
    let mut manager = InterfaceLifecycleManager::new();
    assert_eq!(manager.stage(), ClaimStage::Idle);
    assert!(!manager.is_claimed(0));
    assert_eq!(manager.teardown(), TeardownPlan { release: vec![], reattach: vec![] });
}

#[test]
fn claim_asks_query_detach_claim_in_turn() {
    let mut manager = InterfaceLifecycleManager::new();
    assert_eq!(
        manager.begin_claim(vec![1, 2]),
        ClaimProgress::Request(ClaimRequest::QueryKernelDriver(1))
    );
    assert_eq!(manager.stage(), ClaimStage::AwaitingDriverState);
    assert_eq!(
        manager.advance(ClaimReply::DriverState(true)),
        ClaimProgress::Request(ClaimRequest::DetachKernelDriver(1))
    );
    assert_eq!(manager.stage(), ClaimStage::AwaitingDetach);
    assert_eq!(
        manager.advance(ClaimReply::Done),
        ClaimProgress::Request(ClaimRequest::ClaimInterface(1))
    );
    assert_eq!(manager.stage(), ClaimStage::AwaitingClaim);
    assert_eq!(
        manager.advance(ClaimReply::Done),
        ClaimProgress::Request(ClaimRequest::QueryKernelDriver(2))
    );
    assert_eq!(
        manager.advance(ClaimReply::DriverState(false)),
        ClaimProgress::Request(ClaimRequest::ClaimInterface(2))
    );
    assert_eq!(manager.advance(ClaimReply::Done), ClaimProgress::Complete);
    assert_eq!(manager.stage(), ClaimStage::Idle);
    assert!(manager.is_claimed(1));
    assert!(manager.is_claimed(2));
    assert!(manager.driver_was_active(1));
    assert!(!manager.driver_was_active(2));
}

#[test]
fn claim_follows_the_order_given() {
    let mut manager = InterfaceLifecycleManager::new();
    claim_all(&mut manager, vec![2, 0, 1], &[0, 1, 2]);
    assert_eq!(
        manager.teardown(),
        TeardownPlan { release: vec![2, 0, 1], reattach: vec![2, 0, 1] }
    );
}

#[test]
fn claim_of_nothing_is_complete_at_once() {
    let mut manager = InterfaceLifecycleManager::new();
    assert_eq!(manager.begin_claim(vec![]), ClaimProgress::Complete);
    assert_eq!(manager.stage(), ClaimStage::Idle);
}

#[test]
fn teardown_reattaches_exactly_the_interfaces_that_had_a_driver() {
    let mut manager = InterfaceLifecycleManager::new();
    claim_all(&mut manager, vec![0, 1, 2], &[0, 2]);
    assert_eq!(
        manager.teardown(),
        TeardownPlan { release: vec![0, 1, 2], reattach: vec![0, 2] }
    );
}

#[test]
fn teardown_reattaches_nothing_where_no_driver_was_bound() {
    let mut manager = InterfaceLifecycleManager::new();
    claim_all(&mut manager, vec![1, 2], &[]);
    assert_eq!(manager.teardown(), TeardownPlan { release: vec![1, 2], reattach: vec![] });
}

#[test]
fn second_teardown_finds_nothing_to_do() {
    let mut manager = InterfaceLifecycleManager::new();
    claim_all(&mut manager, vec![1, 2], &[1, 2]);
    assert_eq!(manager.teardown(), TeardownPlan { release: vec![1, 2], reattach: vec![1, 2] });
    assert_eq!(manager.teardown(), TeardownPlan { release: vec![], reattach: vec![] });
    assert!(!manager.is_claimed(1));
    assert!(!manager.driver_was_active(1));
}

#[test]
fn interface_named_twice_is_undone_once() {
    let mut manager = InterfaceLifecycleManager::new();
    claim_all(&mut manager, vec![1, 1, 2, 1], &[1, 2]);
    assert_eq!(manager.teardown(), TeardownPlan { release: vec![1, 2], reattach: vec![1, 2] });
}

#[test]
fn interface_claimed_in_two_calls_is_undone_once() {
    let mut manager = InterfaceLifecycleManager::new();
    claim_all(&mut manager, vec![1], &[1]);
    claim_all(&mut manager, vec![2, 1], &[1, 2]);
    assert_eq!(manager.teardown(), TeardownPlan { release: vec![1, 2], reattach: vec![1, 2] });
}

#[test]
fn failed_query_abandons_the_claim() {
    let mut manager = InterfaceLifecycleManager::new();
    manager.begin_claim(vec![1, 2]);
    assert_eq!(
        manager.advance(ClaimReply::Failed(TransportError::NotSupported)),
        ClaimProgress::Failed(Error::InterfaceClaimFailed(1, TransportError::NotSupported))
    );
    assert_eq!(manager.stage(), ClaimStage::Idle);
    assert_eq!(manager.teardown(), TeardownPlan { release: vec![], reattach: vec![] });
}

#[test]
fn failed_detach_abandons_the_claim_and_names_the_interface() {
    let mut manager = InterfaceLifecycleManager::new();
    claim_all(&mut manager, vec![0], &[]);
    manager.begin_claim(vec![1, 2]);
    manager.advance(ClaimReply::DriverState(true));
    assert_eq!(
        manager.advance(ClaimReply::Failed(TransportError::Access)),
        ClaimProgress::Failed(Error::InterfaceClaimFailed(1, TransportError::Access))
    );
    assert_eq!(manager.stage(), ClaimStage::Idle);
    assert!(manager.is_claimed(0));
    assert!(!manager.is_claimed(1));
    assert!(!manager.is_claimed(2));
}

#[test]
fn failed_claim_leaves_earlier_interfaces_claimed_and_restorable() {
    let mut manager = InterfaceLifecycleManager::new();
    manager.begin_claim(vec![1, 2]);
    manager.advance(ClaimReply::DriverState(true));
    manager.advance(ClaimReply::Done);
    manager.advance(ClaimReply::Done);
    manager.advance(ClaimReply::DriverState(true));
    manager.advance(ClaimReply::Done);
    assert_eq!(
        manager.advance(ClaimReply::Failed(TransportError::Busy)),
        ClaimProgress::Failed(Error::InterfaceClaimFailed(2, TransportError::Busy))
    );
    assert!(manager.is_claimed(1));
    assert!(!manager.is_claimed(2));
    assert_eq!(manager.teardown(), TeardownPlan { release: vec![1], reattach: vec![1, 2] });
}

#[test]
fn reply_that_answers_nothing_repeats_the_request() {
    let mut manager = InterfaceLifecycleManager::new();
    manager.begin_claim(vec![3]);
    assert_eq!(
        manager.advance(ClaimReply::Done),
        ClaimProgress::Request(ClaimRequest::QueryKernelDriver(3))
    );
    manager.advance(ClaimReply::DriverState(false));
    assert_eq!(
        manager.advance(ClaimReply::DriverState(true)),
        ClaimProgress::Request(ClaimRequest::ClaimInterface(3))
    );
    assert!(!manager.driver_was_active(3));
    assert_eq!(manager.advance(ClaimReply::Done), ClaimProgress::Complete);
}

#[test]
fn reply_with_nothing_in_progress_is_ignored() {
    let mut manager = InterfaceLifecycleManager::new();
    assert_eq!(manager.advance(ClaimReply::DriverState(true)), ClaimProgress::Complete);
    assert_eq!(manager.advance(ClaimReply::Done), ClaimProgress::Complete);
    assert_eq!(
        manager.advance(ClaimReply::Failed(TransportError::Io)),
        ClaimProgress::Complete
    );
    assert_eq!(manager.teardown(), TeardownPlan { release: vec![], reattach: vec![] });
}

#[test]
fn new_claim_replaces_the_one_in_progress() {
    let mut manager = InterfaceLifecycleManager::new();
    manager.begin_claim(vec![1, 2]);
    manager.advance(ClaimReply::DriverState(true));
    assert_eq!(
        manager.begin_claim(vec![5]),
        ClaimProgress::Request(ClaimRequest::QueryKernelDriver(5))
    );
    manager.advance(ClaimReply::DriverState(false));
    assert_eq!(manager.advance(ClaimReply::Done), ClaimProgress::Complete);
    assert_eq!(manager.teardown(), TeardownPlan { release: vec![5], reattach: vec![1] });
}

#[test]
fn interface_never_named_is_never_touched() {
    let mut manager = InterfaceLifecycleManager::new();
    claim_all(&mut manager, vec![1, 2], &[0, 1, 2]);
    let plan = manager.teardown();
    assert!(!plan.release.contains(&0));
    assert!(!plan.reattach.contains(&0));
}

#[test]
fn every_interface_number_can_be_claimed() {
    let mut manager = InterfaceLifecycleManager::new();
    let all: Vec<u8> = (0..=255u8).collect();
    claim_all(&mut manager, all.clone(), &all);
    assert_eq!(manager.teardown(), TeardownPlan { release: all.clone(), reattach: all });
}

#[test]
fn claimed_set_tags_each_interface_with_its_driver_state() {
    let mut manager = InterfaceLifecycleManager::new();
    assert_eq!(manager.claimed_interfaces(), vec![]);
    claim_all(&mut manager, vec![2, 0, 1], &[0, 2]);
    assert_eq!(
        manager.claimed_interfaces(),
        vec![
            ClaimedInterface { number: 2, driver_was_active: true },
            ClaimedInterface { number: 0, driver_was_active: true },
            ClaimedInterface { number: 1, driver_was_active: false },
        ]
    );
}

#[test]
fn claimed_set_leaves_out_an_interface_whose_claim_failed() {
    let mut manager = InterfaceLifecycleManager::new();
    manager.begin_claim(vec![1]);
    manager.advance(ClaimReply::DriverState(true));
    manager.advance(ClaimReply::Done);
    manager.advance(ClaimReply::Failed(TransportError::Busy));
    assert_eq!(manager.claimed_interfaces(), vec![]);
    assert!(manager.driver_was_active(1));
    assert_eq!(manager.teardown(), TeardownPlan { release: vec![], reattach: vec![1] });
}
