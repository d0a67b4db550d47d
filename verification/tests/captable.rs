use tarnos::abi::{CapIndex, Rights, SyscallError};
use tarnos::kcore::captable::{CapTable, CapabilitySlot};

fn send() -> Rights {
    Rights::from_bits_truncate(Rights::SEND)
}

fn recv() -> Rights {
    Rights::from_bits_truncate(Rights::RECV)
}

#[test]
fn lookup_on_empty_table_is_bad_capability() {
    let table: CapTable<u32> = CapTable::new();
    assert_eq!(
        table.lookup(CapIndex(0), send()),
        Err(SyscallError::BadCapability)
    );
}

#[test]
fn get_bypasses_rights_check() {
    let mut table = CapTable::new();
    table.insert(
        CapIndex(3),
        CapabilitySlot {
            object: 42u32,
            rights: Rights::empty(),
        },
    );
    assert_eq!(table.get(CapIndex(3)).unwrap().object, 42);
}

#[test]
fn lookup_grants_only_held_rights() {
    let mut table = CapTable::new();
    table.insert(
        CapIndex(0),
        CapabilitySlot {
            object: (),
            rights: send(),
        },
    );
    assert!(table.lookup(CapIndex(0), send()).is_ok());
    assert_eq!(
        table.lookup(CapIndex(0), recv()),
        Err(SyscallError::PermissionDenied)
    );
    assert_eq!(
        table.lookup(CapIndex(0), send().union(recv())),
        Err(SyscallError::PermissionDenied)
    );
}

#[test]
fn unknown_index_is_bad_capability_not_out_of_bounds_panic() {
    let mut table = CapTable::new();
    table.insert(
        CapIndex(5),
        CapabilitySlot {
            object: (),
            rights: send().union(recv()),
        },
    );
    assert_eq!(table.get(CapIndex(0)), Err(SyscallError::BadCapability));
    assert_eq!(table.get(CapIndex(4)), Err(SyscallError::BadCapability));
    assert_eq!(table.get(CapIndex(99)), Err(SyscallError::BadCapability));
    assert!(table.get(CapIndex(5)).is_ok());
}

#[test]
fn reinserting_at_the_same_index_replaces_the_slot() {
    let mut table = CapTable::new();
    table.insert(
        CapIndex(0),
        CapabilitySlot {
            object: 1u32,
            rights: send(),
        },
    );
    table.insert(
        CapIndex(0),
        CapabilitySlot {
            object: 2u32,
            rights: recv(),
        },
    );
    let slot = table.get(CapIndex(0)).unwrap();
    assert_eq!(slot.object, 2);
    assert_eq!(slot.rights, recv());
}
