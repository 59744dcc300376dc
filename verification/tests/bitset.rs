use butter::bitset::Bitset;

#[test]
fn bitset_set() {
    let mut bitset = Bitset::new();
    bitset.set_bit(5);
    assert_eq!(bitset.word(0), 32);

    bitset.set_bit(0);
    assert_eq!(bitset.word(0), 33);

    bitset.set_bit(64);
    assert_eq!(bitset.word(1), 1);
}

#[test]
fn bitset_bit() {
    let mut bitset = Bitset::new();
    bitset.set_bit(5);
    assert!(bitset.bit(5));
    bitset.set_bit(65);
    assert!(bitset.bit(65));
}

#[test]
fn bitset_unset() {
    let mut bitset = Bitset::new();
    bitset.set_bit(3);
    assert!(bitset.bit(3));
    bitset.unset_bit(3);
    assert!(!bitset.bit(3));
}

#[test]
fn ecs_bitset_set() {
    let mut bitset = Bitset::new();
    bitset.set_bit(5);
    assert_eq!(bitset.word(0), 32);

    bitset.set_bit(0);
    assert_eq!(bitset.word(0), 33);

    bitset.set_bit(64);
    assert_eq!(bitset.word(1), 1);
}

#[test]
fn ecs_bitset_bit() {
    let mut bitset = Bitset::new();
    bitset.set_bit(5);
    assert!(bitset.bit(5));
    bitset.set_bit(65);
    assert!(bitset.bit(65));
}

#[test]
fn ecs_bitset_unset() {
    let mut bitset = Bitset::new();
    bitset.set_bit(3);
    assert!(bitset.bit(3));
    bitset.unset_bit(3);
    assert!(!bitset.bit(3));
}
