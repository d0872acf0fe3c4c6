use vstd::prelude::*;

use crate::errors::ConversionError;
use crate::permissions::{includes, Permissions, ALL_BITS, REGULAR_BIT};
use crate::text::{card_bytes, card_text, lemma_card_text_parses, parse_card, parse_card_bytes};

verus! {

/// The card that the bytes `b` hold, as its id and permission bits: the text read by
/// `parse_card` where its id fits 16 bits and its bits are all recognized.
pub open spec fn decoded(b: Seq<u8>) -> Option<(u16, u8)> {
    match parse_card(b) {
        Some((id, bits)) => if id <= 0xffff && bits <= ALL_BITS as nat {
            Some((id as u16, bits as u8))
        } else {
            None
        },
        None => None,
    }
}

/// The bytes that encode a card with the given id and permission bits.
pub open spec fn encoded(c: (u16, u8)) -> Seq<u8> {
    card_text(c.0 as nat, c.1 as nat)
}

/// The message of every decoding error.
pub const DECODE_ERROR: &'static str = "Cant convert to Card";

/// An access card: an identity and the permissions attached to it.
#[derive(Debug, Clone, Copy, PartialEq, Eq, Structural)]
pub struct Card {
    id: u16,
    permissions: Permissions,
}

impl View for Card {
    /// The id and the permission bits.
    type V = (u16, u8);

    closed spec fn view(&self) -> (u16, u8) {
        (self.id, self.permissions@)
    }
}

impl Card {
    /// Two cards are equal exactly when their ids and permission bits are.
    pub proof fn lemma_eq_by_view(a: Card, b: Card)
        ensures
            a == b <==> a@ == b@,
    {
        Permissions::lemma_eq_by_view(a.permissions, b.permissions);
    }

    /// A card with `id` and `permissions`.
    pub fn new(id: u16, permissions: Permissions) -> (r: Card)
        ensures
            r@ == (id, permissions@),
    {
        Card { id, permissions }
    }

    /// Card 0 with regular permissions.
    pub fn default() -> (r: Card)
        ensures
            r@ == (0u16, REGULAR_BIT),
    {
        Card::new(0, Permissions::regular())
    }

    /// The card's id.
    pub fn id(&self) -> (r: u16)
        ensures
            r == self@.0,
    {
        self.id
    }

    /// The card's permissions.
    pub fn permissions(&self) -> (r: &Permissions)
        ensures
            r@ == self@.1,
    {
        &self.permissions
    }

    /// Whether the card holds every capability of `perms`.
    pub fn is(&self, perms: Permissions) -> (r: bool)
        ensures
            r == includes(self@.1, perms@),
    {
        self.permissions.contains(perms)
    }

    /// The card that `bytes` encode, or an error that carries `bytes`.
    pub fn from_bytes<'a>(bytes: &'a [u8]) -> (r: Result<Card, ConversionError<'a>>)
        ensures
            match r {
                Ok(c) => decoded(bytes@) == Some(c@),
                Err(e) => decoded(bytes@) is None && e.bytes == bytes && e.message == DECODE_ERROR,
            },
    {
        match parse_card_bytes(bytes) {
            Some((id, bits)) => match Permissions::from_bits(bits) {
                Some(permissions) => Ok(Card::new(id, permissions)),
                None => Err(ConversionError::new(DECODE_ERROR, bytes)),
            },
            None => Err(ConversionError::new(DECODE_ERROR, bytes)),
        }
    }

    /// The bytes that encode this card: `{"id":<id>,"permissions":<bits>}`.
    pub fn as_bytes(&self) -> (r: Vec<u8>)
        ensures
            r@ == encoded(self@),
            self@.1 <= ALL_BITS,
    {
        let bits = self.permissions.bits();
        card_bytes(self.id, bits)
    }
}

/// Decoding the encoding of a card gives that card back.
pub proof fn lemma_round_trip(c: Card)
    requires
        c@.1 <= ALL_BITS,
    ensures
        decoded(encoded(c@)) == Some(c@),
        forall|d: Card| d@ == c@ ==> d == c,
{
    lemma_card_text_parses(c@.0 as nat, c@.1 as nat);
    assert forall|d: Card| d@ == c@ implies d == c by {
        Card::lemma_eq_by_view(d, c);
    }
}

/// Bytes whose permission field holds a bit outside the recognized ones decode to no card.
pub proof fn lemma_unknown_bits_rejected(b: Seq<u8>)
    requires
        parse_card(b) matches Some((id, bits)) && bits > ALL_BITS,
    ensures
        decoded(b) is None,
{
}

} // verus!
