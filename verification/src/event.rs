//! The addresses that events are published for.
use vstd::prelude::*;

use crate::value::{Address, AddressedEvent, Event};

verus! {

/// The addresses that need a channel for their events: each of the given ones, once.
pub fn new_publishers(addresses: &Vec<Address>) -> (publishers: Vec<Address>)
    ensures
        publishers@.no_duplicates(),
        forall|address: Address| #[trigger]
            publishers@.contains(address) <==> addresses@.contains(address),
{
    let mut publishers: Vec<Address> = Vec::new();
    let mut i: usize = 0;
    while i < addresses.len()
        invariant
            i <= addresses@.len(),
            publishers@.no_duplicates(),
            forall|address: Address| #[trigger]
                publishers@.contains(address) <==> addresses@.take(i as int).contains(address),
        decreases addresses.len() - i,
    {
        let ghost before = publishers@;
        let ghost prefix = addresses@.take(i as int);
        let added: Address = addresses[i];
        assert(addresses@.take(i + 1) =~= prefix.push(added));
        if !contains_address(&publishers, added) {
            publishers.push(added);
            assert forall|address: Address| #[trigger]
                publishers@.contains(address) <==> before.contains(address) || address
                    == added by {
                lemma_push_contains(before, added, address);
            }
        }
        assert forall|address: Address| #[trigger]
            publishers@.contains(address) <==> addresses@.take(i + 1).contains(address) by {
            lemma_push_contains(prefix, added, address);
        }
        i += 1;
    }
    assert(addresses@.take(i as int) =~= addresses@);
    publishers
}

fn contains_address(addresses: &Vec<Address>, address: Address) -> (found: bool)
    ensures
        found == addresses@.contains(address),
{
    let mut i: usize = 0;
    while i < addresses.len()
        invariant
            i <= addresses@.len(),
            forall|j: int| 0 <= j < i ==> #[trigger] addresses@[j] != address,
        decreases addresses.len() - i,
    {
        if addresses[i] == address {
            return true;
        }
        i += 1;
    }
    false
}

proof fn lemma_push_contains(s: Seq<Address>, x: Address, a: Address)
    ensures
        s.push(x).contains(a) <==> s.contains(a) || a == x,
{
    if s.contains(a) {
        let i = choose|i: int| 0 <= i < s.len() && s[i] == a;
        assert(s.push(x)[i] == a);
    }
    if a == x {
        assert(s.push(x)[s.len() as int] == a);
    }
    if s.push(x).contains(a) {
        let i = choose|i: int| 0 <= i < s.push(x).len() && s.push(x)[i] == a;
        if i < s.len() {
            assert(s[i] == a);
        }
    }
}

/// Gives an event its address.
pub fn address_event(address: Address, event: Event) -> (addressed: AddressedEvent)
    ensures
        addressed.address == address,
        addressed.event == event,
{
    AddressedEvent { address, event }
}

} // verus!
