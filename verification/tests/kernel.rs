use rootware::kernel::audit::{AuditEntry, AuditLog, AUDIT_CAPACITY};
use rootware::kernel::capability::{Capability, CapabilityRegistry, IPC_SEND_CAPABILITY};
use rootware::kernel::ipc::{test_message, Ipc, PermissionConfig, PermissionRule, MAX_PERMISSION_RULES};

fn entry(timestamp: u64, sender: u16) -> AuditEntry {
    AuditEntry { timestamp, sender, receiver: 9, message_type: 1, result: 1, capability: 3 }
}

#[test]
fn records_and_queries_by_sender() {
    let mut log = AuditLog::new();
    let mut output = [AuditEntry {
        timestamp: 0,
        sender: 0,
        receiver: 0,
        message_type: 0,
        result: 0,
        capability: 0,
    }; AUDIT_CAPACITY];
    log.record(AuditEntry {
        timestamp: 42,
        sender: 7,
        receiver: 9,
        message_type: 1,
        result: 1,
        capability: 3,
    });
    assert_eq!(log.query_sender(7, &mut output), 1);
    assert_eq!(output[0].timestamp, 42);
}

#[test]
fn audit_log_keeps_the_newest_entries_in_order() {
    let mut log = AuditLog::new();
    for t in 0..40u64 {
        log.record(entry(t, if t % 2 == 0 { 1 } else { 2 }));
    }
    let mut output = [entry(999, 0); AUDIT_CAPACITY];
    let found = log.query_sender(1, &mut output);
    assert_eq!(found, 16);
    for i in 0..16 {
        assert_eq!(output[i].timestamp, 8 + 2 * i as u64);
    }
    for i in 16..AUDIT_CAPACITY {
        assert_eq!(output[i].timestamp, 999);
    }
    assert_eq!(log.query_sender(3, &mut output), 0);
    log.init();
    assert_eq!(log.query_sender(1, &mut output), 0);
}

#[test]
fn capability_is_granted_to_owner() {
    let mut registry = CapabilityRegistry::new();
    let capability = Capability {
        id: IPC_SEND_CAPABILITY,
    };
    assert_eq!(capability.id, 1);
    assert!(registry.grant(1, capability).is_ok());
    assert!(registry.holds(1, capability));
    assert!(!registry.holds(2, capability));
}

#[test]
fn capability_registry_refuses_invalid_and_overflow() {
    let mut registry = CapabilityRegistry::new();
    assert!(registry.grant(0, Capability { id: 1 }).is_err());
    assert!(registry.grant(1, Capability { id: 0 }).is_err());
    for owner in 1..=8u16 {
        assert!(registry.grant(owner, Capability { id: 4 }).is_ok());
    }
    assert!(registry.grant(3, Capability { id: 4 }).is_ok());
    assert!(registry.grant(9, Capability { id: 4 }).is_err());
    assert!(!registry.holds(9, Capability { id: 4 }));
    assert!(registry.holds(8, Capability { id: 4 }));
    assert!(!registry.holds(0, Capability { id: 0 }));
    registry.init();
    assert!(registry.holds(1, Capability { id: IPC_SEND_CAPABILITY }));
    assert!(!registry.holds(8, Capability { id: 4 }));
}

#[test]
fn permission_table_changes_runtime_decision() {
    let config = PermissionConfig::with_rules(&[PermissionRule {
        sender: 7,
        receiver: 9,
        capability: Capability { id: 3 },
    }]);
    assert_eq!(config.count, 1);
    assert_eq!(
        config.rules[0],
        PermissionRule {
            sender: 7,
            receiver: 9,
            capability: Capability { id: 3 }
        }
    );
    assert!(config.allows(7, 9, Capability { id: 3 }));
    assert!(!config.allows(7, 9, Capability { id: 4 }));
    assert!(!config.allows(1, 2, Capability { id: 3 }));
    assert!(config.count as usize <= MAX_PERMISSION_RULES);
}

#[test]
fn permission_config_is_bounded() {
    let rules = [PermissionRule {
        sender: 1,
        receiver: 2,
        capability: Capability { id: 1 },
    }; MAX_PERMISSION_RULES + 1];
    let config = PermissionConfig::with_rules(&rules);
    assert_eq!(config.count as usize, MAX_PERMISSION_RULES);
}

#[test]
fn permission_count_beyond_table_is_clamped() {
    let mut config = PermissionConfig::empty();
    assert!(!config.allows(0, 0, Capability { id: 0 }));
    config.count = 200;
    assert!(config.allows(0, 0, Capability { id: 0 }));
}

#[test]
fn kernel_ipc_needs_rule_and_capability() {
    let mut grants = CapabilityRegistry::new();
    let mut ipc = Ipc::new();
    let message = test_message();
    assert_eq!(&message.payload[..12], b"hello from A");
    assert!(message.payload[12..].iter().all(|b| *b == 0));
    assert!(ipc.send(&grants, message).is_err());
    grants.init();
    assert!(ipc.send(&grants, message).is_ok());
    let received = ipc.recv(2).unwrap();
    assert_eq!(received.sender, 1);
    assert_eq!(received.payload, message.payload);
    assert!(ipc.recv(2).is_none());
}

#[test]
fn kernel_ipc_queue_holds_eight_messages() {
    let mut grants = CapabilityRegistry::new();
    grants.init();
    let mut ipc = Ipc::new();
    let mut message = test_message();
    for i in 0..8u8 {
        message.payload[0] = i;
        assert!(ipc.send(&grants, message).is_ok());
    }
    assert!(ipc.send(&grants, message).is_err());
    for i in 0..8u8 {
        assert_eq!(ipc.recv(2).unwrap().payload[0], i);
    }
    assert!(ipc.recv(2).is_none());
}

#[test]
fn kernel_ipc_drops_message_taken_by_wrong_receiver() {
    let mut grants = CapabilityRegistry::new();
    grants.init();
    let mut ipc = Ipc::new();
    assert!(ipc.send(&grants, test_message()).is_ok());
    assert!(ipc.recv(3).is_none());
    assert!(ipc.recv(2).is_none());
}

#[test]
fn kernel_ipc_follows_loaded_permissions() {
    let mut grants = CapabilityRegistry::new();
    grants.init();
    let mut ipc = Ipc::new();
    ipc.load_permissions(&PermissionConfig::empty());
    assert!(ipc.send(&grants, test_message()).is_err());
    ipc.init();
    assert!(ipc.send(&grants, test_message()).is_ok());
}

#[test]
fn capability_registry_full_still_accepts_held_grant() {
    let mut registry = CapabilityRegistry::new();
    for owner in 1..=8u16 {
        assert!(registry.grant(owner, Capability { id: 7 }).is_ok());
        assert!(registry.grant(owner, Capability { id: 7 }).is_ok());
    }
    assert!(registry.grant(5, Capability { id: 7 }).is_ok());
    assert!(registry.grant(5, Capability { id: 8 }).is_err());
    assert!(!registry.holds(5, Capability { id: 8 }));
}
