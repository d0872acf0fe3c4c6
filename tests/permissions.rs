use nfc_registry::Permissions;

fn samples() -> Vec<Permissions> {
    let mut v = Vec::new();
    for b in 0u8..64 {
        v.push(Permissions::from_bits(b).unwrap());
    }
    v
}

#[test]
fn flag_bits() {
    assert_eq!(Permissions::none().bits(), 1);
    assert_eq!(Permissions::regular().bits(), 2);
    assert_eq!(Permissions::it_support().bits(), 4);
    assert_eq!(Permissions::open_doors().bits(), 8);
    assert_eq!(Permissions::admin().bits(), 16);
    assert_eq!(Permissions::super_admin().bits(), 32);
    assert_eq!(Permissions::all().bits(), 63);
    assert_eq!(Permissions::empty().bits(), 0);
    assert!(Permissions::empty().is_empty());
    assert!(!Permissions::none().is_empty());
}

#[test]
fn from_bits_rejects_unknown_bits() {
    assert!(Permissions::from_bits(64).is_none());
    assert!(Permissions::from_bits(0x80).is_none());
    assert!(Permissions::from_bits(0xff).is_none());
    assert_eq!(Permissions::from_bits(0x3f), Some(Permissions::all()));
}

#[test]
fn set_algebra_laws_on_all_sets() {
    for a in samples() {
        for b in samples() {
            assert!(a.union(b).contains(a));
            assert!(a.union(b).contains(b));
            assert_eq!(a.intersect(b).bits(), a.bits() & b.bits());
            assert_eq!(a.difference(b).bits(), a.bits() & !b.bits());
            assert_eq!(a.symmetric_difference(b).bits(), a.bits() ^ b.bits());
        }
        assert_eq!(a.intersect(a), a);
    }
    assert!(!Permissions::privileged().contains(Permissions::none()));
}

#[test]
fn privileged_is_everything_but_none() {
    let p = Permissions::privileged();
    assert_eq!(p.bits(), 0x3e);
    assert!(p.contains(Permissions::regular()));
    assert!(p.contains(Permissions::super_admin()));
}
