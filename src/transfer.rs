use vstd::prelude::*;

use crate::hexcode::{decode_hex, hex_bytes, is_hex_text};

verus! {

/// Who receives a transfer, named by the raw bytes of its public key.
#[derive(Debug)]
pub struct Destination {
    id: Vec<u8>,
}

/// A write intent: move `value` base units to `dest`.
#[derive(Debug)]
pub struct Transfer {
    dest: Destination,
    value: u128,
}

/// The destination's text is not an even number of hex digits.
#[derive(Clone, Copy, Debug, PartialEq, Eq, Structural)]
pub struct DestinationError;

impl View for Destination {
    type V = Seq<u8>;

    closed spec fn view(&self) -> Seq<u8> {
        self.id@
    }
}

impl View for Transfer {
    type V = (Seq<u8>, u128);

    closed spec fn view(&self) -> (Seq<u8>, u128) {
        (self.dest@, self.value)
    }
}

impl Destination {
    pub fn new(id: Vec<u8>) -> (r: Destination)
        ensures
            r@ == id@,
    {
        Destination { id }
    }

    /// The destination whose public key `text` spells in hex.
    pub fn from_hex(text: &str) -> (r: Result<Destination, DestinationError>)
        ensures
            r is Ok <==> is_hex_text(text@),
            r matches Ok(d) ==> d@ == hex_bytes(text@),
    {
        match decode_hex(text) {
            Ok(id) => Ok(Destination { id }),
            Err(_) => Err(DestinationError),
        }
    }

    pub fn id(&self) -> (r: &Vec<u8>)
        ensures
            r@ == self@,
    {
        &self.id
    }
}

impl Transfer {
    pub fn new(dest: Destination, value: u128) -> (r: Transfer)
        ensures
            r@ == (dest@, value),
    {
        Transfer { dest, value }
    }

    pub fn dest(&self) -> (r: &Destination)
        ensures
            r@ == self@.0,
    {
        &self.dest
    }

    pub fn value(&self) -> (r: u128)
        ensures
            r == self@.1,
    {
        self.value
    }
}

} // verus!
