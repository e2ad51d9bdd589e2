use balance_wallet::transfer::{Destination, DestinationError, Transfer};
use balance_wallet::vault::{vault_origin, VaultOrigin};

#[test]
fn destination_from_hex_decodes_pairs() {
    let d = Destination::from_hex("00aBff10").unwrap();
    assert_eq!(d.id(), &vec![0x00, 0xab, 0xff, 0x10]);
    assert_eq!(Destination::from_hex("").unwrap().id(), &Vec::<u8>::new());
}

#[test]
fn destination_from_bad_hex_is_an_error() {
    assert_eq!(Destination::from_hex("abc").err(), Some(DestinationError));
    assert_eq!(Destination::from_hex("zz").err(), Some(DestinationError));
    assert_eq!(Destination::from_hex("your_dest").err(), Some(DestinationError));
}

#[test]
fn transfer_keeps_destination_and_value() {
    let t = Transfer::new(Destination::new(vec![1, 2]), 42);
    assert_eq!(t.value(), 42);
    assert_eq!(t.dest().id(), &vec![1, 2]);
}

#[test]
fn empty_phrase_asks_for_a_generated_vault() {
    assert_eq!(vault_origin(""), VaultOrigin::Generated);
    assert_eq!(vault_origin("my_phrase"), VaultOrigin::FromPhrase);
}
