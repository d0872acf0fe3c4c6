use nfc_registry::{Card, Permissions};

fn all_cards() -> Vec<Card> {
    let sets = vec![
        Permissions::empty(),
        Permissions::none(),
        Permissions::regular(),
        Permissions::it_support(),
        Permissions::open_doors(),
        Permissions::admin(),
        Permissions::super_admin(),
        Permissions::all(),
        Permissions::privileged(),
        Permissions::regular().union(Permissions::open_doors()),
    ];
    let mut cards = Vec::new();
    for id in [0u16, 1, 9, 10, 99, 100, 12345, 65535] {
        for p in &sets {
            cards.push(Card::new(id, *p));
        }
    }
    cards
}

#[test]
fn round_trip_every_sample_card() {
    for c in all_cards() {
        let bytes = c.as_bytes();
        let back = Card::from_bytes(&bytes).expect("encoded card decodes");
        assert_eq!(back, c);
    }
}

#[test]
fn encoding_is_canonical_text() {
    assert_eq!(Card::default().as_bytes(), b"{\"id\":0,\"permissions\":2}".to_vec());
    let c = Card::new(65535, Permissions::all());
    assert_eq!(c.as_bytes(), b"{\"id\":65535,\"permissions\":63}".to_vec());
    let c = Card::new(10, Permissions::empty());
    assert_eq!(c.as_bytes(), b"{\"id\":10,\"permissions\":0}".to_vec());
}

#[test]
fn encoding_is_json_that_serde_json_reads() {
    let c = Card::new(4242, Permissions::admin().union(Permissions::regular()));
    let v: serde_json::Value = serde_json::from_slice(&c.as_bytes()).unwrap();
    assert_eq!(v["id"].as_u64(), Some(4242));
    assert_eq!(v["permissions"].as_u64(), Some(18));
}

#[test]
fn decode_rejects_bit_outside_recognized_flags() {
    let bytes: &[u8] = b"{\"id\": 1, \"permissions\": 64}";
    let err = Card::from_bytes(bytes).unwrap_err();
    assert_eq!(err.bytes, bytes);
    assert_eq!(err.message, "Cant convert to Card");
    for bits in [64u32, 65, 128, 255, 256, 1000] {
        let text = format!("{{\"id\":7,\"permissions\":{}}}", bits);
        assert!(Card::from_bytes(text.as_bytes()).is_err(), "bits {}", bits);
    }
}

#[test]
fn decode_accepts_whitespace_and_either_order() {
    let c = Card::from_bytes(b" \n{ \"permissions\" :\t6 ,\r\n \"id\" : 300 } \n").unwrap();
    assert_eq!(c, Card::new(300, Permissions::it_support().union(Permissions::regular())));
    assert_eq!(c.id(), 300);
    assert_eq!(c.permissions().bits(), 6);
}

#[test]
fn decode_rejects_malformed_buffers() {
    let bad: Vec<&[u8]> = vec![
        b"",
        b"{}",
        b"{\"id\":1}",
        b"{\"permissions\":1}",
        b"{\"id\":1,\"permissions\":1,\"extra\":2}",
        b"{\"id\":1,\"id\":1}",
        b"{\"id\":01,\"permissions\":1}",
        b"{\"id\":-1,\"permissions\":1}",
        b"{\"id\":1.0,\"permissions\":1}",
        b"{\"id\":\"1\",\"permissions\":1}",
        b"{\"id\":65536,\"permissions\":1}",
        b"{\"id\":1,\"permissions\":1}x",
        b"{\"id\":1 \"permissions\":1}",
        b"[1,2]",
        b"{\"ID\":1,\"permissions\":1}",
    ];
    for b in bad {
        let err = Card::from_bytes(b).unwrap_err();
        assert_eq!(err.bytes, b);
    }
}

#[test]
fn decode_reads_largest_id() {
    let c = Card::from_bytes(b"{\"id\":65535,\"permissions\":0}").unwrap();
    assert_eq!(c, Card::new(65535, Permissions::empty()));
}

#[test]
fn card_is_checks_contained_permissions() {
    let c = Card::new(3, Permissions::regular().union(Permissions::open_doors()));
    assert!(c.is(Permissions::regular()));
    assert!(c.is(Permissions::open_doors()));
    assert!(c.is(Permissions::empty()));
    assert!(!c.is(Permissions::admin()));
    assert!(!c.is(Permissions::regular().union(Permissions::admin())));
}

#[test]
fn default_card_is_regular_card_zero() {
    let c = Card::default();
    assert_eq!(c.id(), 0);
    assert_eq!(*c.permissions(), Permissions::regular());
}
