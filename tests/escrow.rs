use bbchain::escrow::{EscrowManager, EscrowStatus};

fn refund_of(refunds: &[(String, u64)], account: &str) -> Option<u64> {
    refunds.iter().find(|(a, _)| a == account).map(|(_, v)| *v)
}

#[test]
fn test_create_escrow() {
    let mut manager = EscrowManager::new();
    let escrow = manager.create_escrow("market_123");

    assert_eq!(escrow.market_id, "market_123");
    assert_eq!(escrow.total_locked, 0);
    assert_eq!(escrow.status, EscrowStatus::Active);
}

#[test]
fn test_lock_funds() {
    let mut manager = EscrowManager::new();
    manager.create_escrow("market_123");

    let result = manager.lock_funds("market_123", "alice", 1000);
    assert!(result.is_ok());

    let escrow = manager.get_escrow("market_123").unwrap();
    assert_eq!(escrow.total_locked, 1000);
    assert_eq!(escrow.deposit_of("alice"), Some(1000));
}

#[test]
fn test_release_funds() {
    let mut manager = EscrowManager::new();
    manager.create_escrow("market_123");
    manager.lock_funds("market_123", "alice", 1000).unwrap();

    let payout = manager.release_funds("market_123", "alice", 2000).unwrap();
    assert_eq!(payout, 2000);

    let escrow = manager.get_escrow("market_123").unwrap();
    assert_eq!(escrow.deposit_of("alice"), Some(0));
}

#[test]
fn test_refund_market() {
    let mut manager = EscrowManager::new();
    manager.create_escrow("market_123");
    manager.lock_funds("market_123", "alice", 1000).unwrap();
    manager.lock_funds("market_123", "bob", 500).unwrap();

    let refunds = manager.refund_market("market_123").unwrap();
    assert_eq!(refund_of(&refunds, "alice"), Some(1000));
    assert_eq!(refund_of(&refunds, "bob"), Some(500));

    let escrow = manager.get_escrow("market_123").unwrap();
    assert_eq!(escrow.total_locked, 0);
}

#[test]
fn repeated_locks_accumulate() {
    let mut manager = EscrowManager::new();
    manager.create_escrow("m");
    manager.lock_funds("m", "alice", 300).unwrap();
    let escrow = manager.lock_funds("m", "alice", 200).unwrap();
    assert_eq!(escrow.deposit_of("alice"), Some(500));
    assert_eq!(escrow.total_locked, 500);
    assert_eq!(escrow.user_deposits.len(), 1);
    assert_eq!(manager.get_locked_balance("m", "alice"), 500);
    assert_eq!(manager.get_locked_balance("m", "bob"), 0);
    assert_eq!(manager.get_locked_balance("other", "alice"), 0);
}

#[test]
fn unknown_market_is_refused() {
    let mut manager = EscrowManager::new();
    assert_eq!(
        manager.lock_funds("nope", "alice", 1).unwrap_err(),
        "No escrow found for market nope"
    );
    assert!(manager.release_funds("nope", "alice", 1).is_err());
    assert!(manager.refund_market("nope").is_err());
    assert!(manager.mark_resolved("nope").is_err());
    assert!(manager.get_escrow("nope").is_none());
}

#[test]
fn release_needs_locked_funds() {
    let mut manager = EscrowManager::new();
    manager.create_escrow("m");
    assert_eq!(
        manager.release_funds("m", "carol", 10),
        Err("No locked funds for account carol".to_string())
    );
    manager.lock_funds("m", "carol", 10).unwrap();
    manager.release_funds("m", "carol", 25).unwrap();
    assert_eq!(
        manager.release_funds("m", "carol", 25),
        Err("No locked funds to release".to_string())
    );
}

#[test]
fn only_active_escrow_takes_funds() {
    let mut manager = EscrowManager::new();
    manager.create_escrow("m");
    manager.mark_resolved("m").unwrap();
    let escrow = manager.get_escrow("m").unwrap();
    assert_eq!(escrow.status, EscrowStatus::Resolved);
    assert!(escrow.resolved_at.is_some());
    assert_eq!(manager.lock_funds("m", "alice", 5).unwrap_err(), "Escrow is not active");
}

#[test]
fn newest_escrow_of_market_is_used() {
    let mut manager = EscrowManager::new();
    manager.create_escrow("m");
    manager.lock_funds("m", "alice", 100).unwrap();
    manager.refund_market("m").unwrap();
    assert_eq!(manager.get_escrow("m").unwrap().status, EscrowStatus::Settled);
    manager.create_escrow("m");
    manager.lock_funds("m", "alice", 7).unwrap();
    assert_eq!(manager.get_locked_balance("m", "alice"), 7);
    assert_eq!(manager.list_escrows().len(), 2);
    assert_eq!(manager.total_locked(), 7);
}

#[test]
fn overflowing_lock_is_refused() {
    let mut manager = EscrowManager::new();
    manager.create_escrow("m");
    manager.lock_funds("m", "alice", u64::MAX).unwrap();
    assert!(manager.lock_funds("m", "bob", 1).is_err());
    assert_eq!(manager.get_locked_balance("m", "bob"), 0);
}
