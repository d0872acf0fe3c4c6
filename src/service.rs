use vstd::prelude::*;

use std::collections::BTreeMap;

use crate::card::Card;
use crate::kernel::{Kernel, SystemBase};

verus! {

/// Whether every card of `m` is stored under its own id.
pub open spec fn ids_match(m: Map<u16, Card>) -> bool {
    forall|k: u16| #[trigger] m.contains_key(k) ==> m[k]@.0 == k
}

/// Whether `r` lists the cards of `m` in ascending order of id, each once.
pub open spec fn lists_in_order(r: Seq<Card>, m: Map<u16, Card>) -> bool {
    &&& r.len() == m.len()
    &&& forall|i: int, j: int| 0 <= i < j < r.len() ==> r[i]@.0 < r[j]@.0
    &&& forall|i: int| 0 <= i < r.len() ==> m.contains_key(#[trigger] r[i]@.0) && m[r[i]@.0] == r[i]
    &&& forall|k: u16| #[trigger] m.contains_key(k) ==> exists|i: int| 0 <= i < r.len() && r[i] == m[k]
}

/// A registry of cards keyed by id, on top of a kernel that talks to the hardware.
pub struct NfcService<K: Kernel> {
    cards: BTreeMap<u16, Card>,
    system: K,
}

impl<K: Kernel> View for NfcService<K> {
    type V = Map<u16, Card>;

    closed spec fn view(&self) -> Map<u16, Card> {
        self.cards@
    }
}

impl Default for NfcService<SystemBase> {
    fn default() -> (r: Self)
        ensures
            r@ == Map::<u16, Card>::empty(),
    {
        NfcService::<SystemBase>::new()
    }
}

impl<K: Kernel> NfcService<K> {
    /// Well-formed: every card is stored under its own id.
    pub open spec fn wf(&self) -> bool {
        ids_match(self@)
    }

    /// The kernel that the registry was built with.
    pub closed spec fn kernel_spec(&self) -> K {
        self.system
    }

    /// An empty registry on the kernel without hardware.
    pub fn new() -> (r: NfcService<SystemBase>)
        ensures
            r@ == Map::<u16, Card>::empty(),
            r.wf(),
    {
        NfcService { system: SystemBase::Global, cards: BTreeMap::new() }
    }

    /// An empty registry on `system`.
    pub fn new_in(system: K) -> (r: NfcService<K>)
        ensures
            r@ == Map::<u16, Card>::empty(),
            r.wf(),
            r.kernel_spec() == system,
    {
        NfcService { system, cards: BTreeMap::new() }
    }

    /// The kernel of this registry.
    pub fn kernel(&self) -> (r: &K)
        ensures
            *r == self.kernel_spec(),
    {
        &self.system
    }

    /// The number of cards stored.
    pub fn len(&self) -> (r: usize)
        ensures
            r == self@.len(),
    {
        self.cards.len()
    }

    /// The stored cards in ascending order of id.
    pub fn cards(&self) -> (r: Vec<Card>)
        requires
            self.wf(),
        ensures
            lists_in_order(r@, self@),
    {
        let values = self.cards.values();
        let ghost keys = choose|key_seq: Seq<u16>|
            {
                &&& vstd::std_specs::btree::increasing_seq(key_seq)
                &&& key_seq.to_set() == self.cards@.dom()
                &&& key_seq.no_duplicates()
                &&& vstd::std_specs::iter::IteratorSpec::remaining(&values) == key_seq.map(|i: int, k: u16| &self.cards@[k])
            };
        let mut out: Vec<Card> = Vec::new();
        for c in it: values
            invariant
                it.seq() == keys.map(|i: int, k: u16| &self.cards@[k]),
                out@.len() == it.index(),
                forall|i: int| 0 <= i < it.index() ==> out@[i] == *it.seq()[i],
        {
            out.push(*c);
        }
        proof {
            assert(keys.len() == self.cards@.dom().len()) by {
                keys.unique_seq_to_set();
            }
            assert forall|i: int| 0 <= i < out@.len() implies self.cards@.contains_key(
                #[trigger] out@[i]@.0,
            ) && self.cards@[out@[i]@.0] == out@[i] by {
                assert(keys.to_set().contains(keys[i]));
            }
            assert forall|k: u16| #[trigger] self.cards@.contains_key(k) implies exists|i: int|
                0 <= i < out@.len() && out@[i] == self.cards@[k] by {
                assert(keys.to_set().contains(k));
                let i = choose|i: int| 0 <= i < keys.len() && keys[i] == k;
                assert(out@[i] == self.cards@[k]);
            }
            assert forall|i: int, j: int| 0 <= i < j < out@.len() implies out@[i]@.0
                < out@[j]@.0 by {
                assert(keys.to_set().contains(keys[i]));
                assert(keys.to_set().contains(keys[j]));
                assert(vstd::laws_cmp::obeys_cmp::<u16>());
                assert(vstd::std_specs::cmp::OrdSpec::cmp_spec(&keys[i], &keys[j]) is Less);
            }
        }
        out
    }

    /// Removes the card with id `card_id` and returns it, if one is stored.
    pub fn unbind(&mut self, card_id: &u16) -> (r: Option<Card>)
        requires
            old(self).wf(),
        ensures
            final(self)@ == old(self)@.remove(*card_id),
            final(self).kernel_spec() == old(self).kernel_spec(),
            r == (if old(self)@.contains_key(*card_id) {
                Some(old(self)@[*card_id])
            } else {
                None
            }),
            final(self).wf(),
    {
        self.cards.remove(card_id)
    }

    /// Stores `card` under its id, replacing the card stored there before.
    pub fn put(&mut self, card: Card)
        requires
            old(self).wf(),
        ensures
            final(self)@ == old(self)@.insert(card@.0, card),
            final(self).kernel_spec() == old(self).kernel_spec(),
            final(self).wf(),
    {
        let _ = self.cards.insert(card.id(), card);
    }

    /// The card with id `card_id`, if one is stored.
    pub fn get(&self, card_id: &u16) -> (r: Option<&Card>)
        ensures
            r == (if self@.contains_key(*card_id) {
                Some(&self@[*card_id])
            } else {
                None
            }),
    {
        self.cards.get(card_id)
    }

    /// Whether a card with id `card_id` is stored.
    pub fn contains(&self, card_id: &u16) -> (r: bool)
        ensures
            r == self@.contains_key(*card_id),
    {
        self.cards.contains_key(card_id)
    }
}

/// Putting two cards with the same id one after the other leaves the second stored under
/// that id, and keeps every card under its own id.
pub proof fn lemma_put_overwrites(m: Map<u16, Card>, a: Card, b: Card)
    requires
        ids_match(m),
        a@.0 == b@.0,
    ensures
        m.insert(a@.0, a).insert(b@.0, b).contains_key(b@.0),
        m.insert(a@.0, a).insert(b@.0, b)[b@.0] == b,
        ids_match(m.insert(a@.0, a).insert(b@.0, b)),
{
}

} // verus!
