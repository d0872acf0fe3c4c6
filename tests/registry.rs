use nfc_registry::{Card, Kernel, KernelError, NfcService, Permissions, SystemBase};

#[test]
fn scenario_store_encode_decode() {
    let mut reg = NfcService::<SystemBase>::new();
    reg.put(Card::new(0, Permissions::regular()));
    let bytes = reg.get(&0).unwrap().as_bytes();
    let decoded = Card::from_bytes(&bytes).unwrap();
    assert_eq!(decoded, Card::new(0, Permissions::regular()));
    assert_eq!(reg.cards().len(), 1);
}

#[test]
fn put_overwrites_same_id() {
    let mut reg = NfcService::<SystemBase>::new();
    reg.put(Card::new(5, Permissions::regular()));
    reg.put(Card::new(5, Permissions::admin()));
    assert_eq!(reg.get(&5), Some(&Card::new(5, Permissions::admin())));
    assert_eq!(reg.len(), 1);
}

#[test]
fn keys_match_ids_after_puts_and_unbinds() {
    let mut reg = NfcService::<SystemBase>::new();
    for id in [9u16, 3, 65535, 0, 3, 7] {
        reg.put(Card::new(id, Permissions::open_doors()));
    }
    assert_eq!(reg.unbind(&7), Some(Card::new(7, Permissions::open_doors())));
    assert_eq!(reg.unbind(&7), None);
    for id in [0u16, 3, 9, 65535, 1] {
        match reg.get(&id) {
            Some(c) => assert_eq!(c.id(), id),
            None => assert_eq!(id, 1),
        }
    }
    for c in reg.cards() {
        assert_eq!(reg.get(&c.id()), Some(&c));
    }
}

#[test]
fn cards_are_listed_by_ascending_id() {
    let mut reg = NfcService::<SystemBase>::new();
    for id in [40u16, 2, 65535, 17, 0] {
        reg.put(Card::new(id, Permissions::regular()));
    }
    let ids: Vec<u16> = reg.cards().iter().map(|c| c.id()).collect();
    assert_eq!(ids, vec![0, 2, 17, 40, 65535]);
}

#[test]
fn empty_registry() {
    let reg: NfcService<SystemBase> = NfcService::default();
    assert_eq!(reg.len(), 0);
    assert!(reg.cards().is_empty());
    assert_eq!(reg.get(&0), None);
    assert!(!reg.contains(&0));
}

#[test]
fn contains_and_len_follow_puts() {
    let mut reg = NfcService::new_in(SystemBase);
    reg.put(Card::new(1, Permissions::none()));
    reg.put(Card::new(2, Permissions::none()));
    assert!(reg.contains(&1));
    assert!(reg.contains(&2));
    assert!(!reg.contains(&3));
    assert_eq!(reg.len(), 2);
    assert_eq!(reg.unbind(&1), Some(Card::new(1, Permissions::none())));
    assert!(!reg.contains(&1));
    assert_eq!(reg.len(), 1);
}

#[test]
fn system_base_fails_loudly() {
    let mut sys = SystemBase::Global;
    assert!(matches!(sys.read(1), Err(KernelError::Read { .. })));
    assert!(matches!(sys.read_mut(1), Err(KernelError::Read { .. })));
    assert!(matches!(sys.write(&Card::default(), b"x"), Err(KernelError::Write { .. })));
    sys.sense();
    let reg = NfcService::new_in(SystemBase);
    reg.kernel().sense();
}
