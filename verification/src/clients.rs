//! What each client asked for.

use std::collections::HashMap;
use vstd::prelude::*;
use vstd::seq_lib::lemma_multiset_commutative;

verus! {

broadcast use {vstd::std_specs::hash::group_hash_axioms, vstd::seq_lib::group_to_multiset_ensures};

/// The address of a client.
#[derive(Debug, Clone, Copy, PartialEq, Eq, Structural)]
pub enum ClientAddress {
    /// An IPv4 address, as a number.
    V4(u32),
    /// An IPv6 address, as a number.
    V6(u128),
}

/// What a client asked for.
pub struct ClientRecord {
    /// The address in its usual notation.
    pub ip: String,
    /// How many requests it made.
    pub requests: u64,
    /// How many bytes it was sent.
    pub bytes: u64,
    /// How many rows it was sent.
    pub rows: u64,
    /// How long its requests took, in microseconds.
    pub total_duration_us: u64,
    /// When its last request ended, in nanoseconds since the start.
    pub last_seen_ns: u64,
}

/// What a [`ClientRecord`] says.
pub struct ClientView {
    /// The address in its usual notation.
    pub ip: Seq<char>,
    /// How many requests it made.
    pub requests: u64,
    /// How many bytes it was sent.
    pub bytes: u64,
    /// How many rows it was sent.
    pub rows: u64,
    /// How long its requests took, in microseconds.
    pub total_duration_us: u64,
    /// When its last request ended, in nanoseconds since the start.
    pub last_seen_ns: u64,
}

impl View for ClientRecord {
    type V = ClientView;

    open spec fn view(&self) -> ClientView {
        ClientView {
            ip: self.ip@,
            requests: self.requests,
            bytes: self.bytes,
            rows: self.rows,
            total_duration_us: self.total_duration_us,
            last_seen_ns: self.last_seen_ns,
        }
    }
}

/// One request of a client.
pub struct Visit {
    /// How many bytes were sent.
    pub bytes: u64,
    /// How many rows were sent.
    pub rows: u64,
    /// How long it took, in microseconds.
    pub duration_us: u64,
    /// When it ended, in nanoseconds since the start.
    pub ended_ns: u64,
}

/// A client after one more request. The notation of the address is that of the
/// first request, and the counts wrap around.
pub open spec fn credited(previous: Option<ClientView>, ip: Seq<char>, visit: Visit) -> ClientView {
    match previous {
        Some(client) => ClientView {
            ip: client.ip,
            requests: client.requests.wrapping_add(1),
            bytes: client.bytes.wrapping_add(visit.bytes),
            rows: client.rows.wrapping_add(visit.rows),
            total_duration_us: client.total_duration_us.wrapping_add(visit.duration_us),
            last_seen_ns: visit.ended_ns,
        },
        None => ClientView {
            ip,
            requests: 1,
            bytes: visit.bytes,
            rows: visit.rows,
            total_duration_us: visit.duration_us,
            last_seen_ns: visit.ended_ns,
        },
    }
}

/// The clients of a server.
pub struct ClientTable {
    v4: HashMap<u32, ClientRecord>,
    v6: HashMap<u128, ClientRecord>,
}

impl View for ClientTable {
    type V = Map<ClientAddress, ClientView>;

    closed spec fn view(&self) -> Map<ClientAddress, ClientView> {
        Map::new(
            |address: ClientAddress|
                match address {
                    ClientAddress::V4(bits) => self.v4@.contains_key(bits),
                    ClientAddress::V6(bits) => self.v6@.contains_key(bits),
                },
            |address: ClientAddress|
                match address {
                    ClientAddress::V4(bits) => self.v4@[bits]@,
                    ClientAddress::V6(bits) => self.v6@[bits]@,
                },
        )
    }
}

/// What is known of a client.
pub open spec fn known(
    clients: Map<ClientAddress, ClientView>,
    address: ClientAddress,
) -> Option<ClientView> {
    if clients.contains_key(address) {
        Some(clients[address])
    } else {
        None
    }
}

/// What is counted of each client.
pub enum Quantity {
    /// Its requests.
    Requests,
    /// The bytes that it was sent.
    Bytes,
    /// The rows that it was sent.
    Rows,
    /// How long its requests took, in microseconds.
    Duration,
}

impl ClientView {
    /// How much was counted of the client.
    pub open spec fn amount(self, quantity: Quantity) -> u64 {
        match quantity {
            Quantity::Requests => self.requests,
            Quantity::Bytes => self.bytes,
            Quantity::Rows => self.rows,
            Quantity::Duration => self.total_duration_us,
        }
    }
}

/// How much was counted of all clients together.
pub open spec fn total(clients: Map<ClientAddress, ClientView>, quantity: Quantity) -> nat
    decreases clients.dom().len(),
{
    if clients.dom().finite() && clients.dom().len() > 0 {
        let address = clients.dom().choose();
        clients[address].amount(quantity) as nat + total(clients.remove(address), quantity)
    } else {
        0
    }
}

/// The total is what was counted of any one client and of all the others.
pub proof fn lemma_total_remove(
    clients: Map<ClientAddress, ClientView>,
    quantity: Quantity,
    address: ClientAddress,
)
    requires
        clients.dom().finite(),
        clients.contains_key(address),
    ensures
        total(clients, quantity) == clients[address].amount(quantity) + total(
            clients.remove(address),
            quantity,
        ),
    decreases clients.dom().len(),
{
    let first = clients.dom().choose();
    if first != address {
        lemma_total_remove(clients.remove(first), quantity, address);
        lemma_total_remove(clients.remove(address), quantity, first);
        assert(clients.remove(first).remove(address) =~= clients.remove(address).remove(first));
    }
}

/// A client and how many requests it made.
#[derive(Clone, Copy)]
pub struct Standing {
    /// The client.
    pub address: ClientAddress,
    /// How many requests it made.
    pub requests: u64,
}

/// Whether the clients with the most requests come first.
pub open spec fn most_first(standings: Seq<Standing>) -> bool {
    forall|i: int, j: int|
        0 <= i <= j < standings.len() ==> (#[trigger] standings[i]).requests >= (
        #[trigger] standings[j]).requests
}

/// Merges two orders into one.
fn merge(left: &[Standing], right: &[Standing]) -> (r: Vec<Standing>)
    requires
        most_first(left@),
        most_first(right@),
    ensures
        most_first(r@),
        r@.to_multiset() == left@.to_multiset().add(right@.to_multiset()),
{
    let mut merged: Vec<Standing> = Vec::new();
    let mut i: usize = 0;
    let mut j: usize = 0;
    assert(left@.take(0) =~= seq![]);
    assert(right@.take(0) =~= seq![]);
    assert(merged@.to_multiset() =~= left@.take(0).to_multiset().add(right@.take(0).to_multiset()));
    while i < left.len() || j < right.len()
        invariant
            i <= left@.len(),
            j <= right@.len(),
            most_first(left@),
            most_first(right@),
            most_first(merged@),
            forall|k: int, l: int|
                0 <= k < merged@.len() && i <= l < left@.len() ==> (#[trigger] merged@[k]).requests
                    >= (#[trigger] left@[l]).requests,
            forall|k: int, l: int|
                0 <= k < merged@.len() && j <= l < right@.len() ==> (
                #[trigger] merged@[k]).requests >= (#[trigger] right@[l]).requests,
            merged@.to_multiset() == left@.take(i as int).to_multiset().add(
                right@.take(j as int).to_multiset(),
            ),
        decreases left@.len() - i + right@.len() - j,
    {
        if j >= right.len() || (i < left.len() && left[i].requests >= right[j].requests) {
            let next: Standing = left[i];
            assert(left@.take(i + 1) =~= left@.take(i as int).push(next));
            merged.push(next);
            i = i + 1;
        } else {
            let next: Standing = right[j];
            assert(right@.take(j + 1) =~= right@.take(j as int).push(next));
            merged.push(next);
            j = j + 1;
        }
        assert(merged@.to_multiset() =~= left@.take(i as int).to_multiset().add(
            right@.take(j as int).to_multiset(),
        ));
    }
    assert(left@.take(i as int) =~= left@);
    assert(right@.take(j as int) =~= right@);
    merged
}

/// Puts the clients with the most requests first.
fn sort(standings: &[Standing]) -> (r: Vec<Standing>)
    ensures
        most_first(r@),
        r@.to_multiset() == standings@.to_multiset(),
    decreases standings@.len(),
{
    if standings.len() <= 1 {
        let mut same: Vec<Standing> = Vec::new();
        if standings.len() == 1 {
            same.push(standings[0]);
        }
        assert(same@ =~= standings@);
        same
    } else {
        let middle: usize = standings.len() / 2;
        let left: &[Standing] = vstd::slice::slice_subrange(standings, 0, middle);
        let right: &[Standing] = vstd::slice::slice_subrange(standings, middle, standings.len());
        proof {
            lemma_multiset_commutative(left@, right@);
            assert(left@ + right@ =~= standings@);
        }
        let sorted_left: Vec<Standing> = sort(left);
        let sorted_right: Vec<Standing> = sort(right);
        merge(sorted_left.as_slice(), sorted_right.as_slice())
    }
}

/// Whether standings are those of clients, each once.
spec fn standings_of(standings: Seq<Standing>, clients: Map<ClientAddress, ClientView>) -> bool {
    &&& forall|i: int|
        0 <= i < standings.len() ==> clients.contains_key((#[trigger] standings[i]).address)
            && clients[standings[i].address].requests == standings[i].requests
    &&& forall|i: int, j: int|
        0 <= i < j < standings.len() ==> (#[trigger] standings[i]).address != (
        #[trigger] standings[j]).address
}

/// Standings in another order are still those of the clients.
proof fn lemma_standings_reordered(
    standings: Seq<Standing>,
    reordered: Seq<Standing>,
    clients: Map<ClientAddress, ClientView>,
)
    requires
        standings_of(standings, clients),
        reordered.to_multiset() == standings.to_multiset(),
    ensures
        standings_of(reordered, clients),
        forall|standing: Standing|
            #[trigger] standings.contains(standing) <==> reordered.contains(standing),
{
    assert forall|standing: Standing| #[trigger] standings.contains(standing) <==> reordered.contains(
        standing,
    ) by {
        assert(standings.contains(standing) <==> standings.to_multiset().count(standing) > 0);
        assert(reordered.contains(standing) <==> reordered.to_multiset().count(standing) > 0);
    }
    assert(standings.no_duplicates());
    standings.lemma_multiset_has_no_duplicates();
    reordered.lemma_multiset_has_no_duplicates_conv();
    assert forall|i: int| 0 <= i < reordered.len() implies clients.contains_key(
        (#[trigger] reordered[i]).address,
    ) && clients[reordered[i].address].requests == reordered[i].requests by {
        assert(standings.contains(reordered[i]));
    }
    assert forall|i: int, j: int| 0 <= i < j < reordered.len() implies (
    #[trigger] reordered[i]).address != (#[trigger] reordered[j]).address by {
        assert(standings.contains(reordered[i]));
        assert(standings.contains(reordered[j]));
    }
}

impl ClientTable {
    /// A table without clients.
    pub fn new() -> (r: ClientTable)
        ensures
            r@ == Map::<ClientAddress, ClientView>::empty(),
    {
        let table: ClientTable = ClientTable { v4: HashMap::new(), v6: HashMap::new() };
        assert(table@ =~= Map::empty());
        table
    }

    /// What is known of a client.
    pub fn get(&self, address: ClientAddress) -> (r: Option<&ClientRecord>)
        ensures
            (match r {
                Some(client) => Some(client@),
                None => None,
            }) == known(self@, address),
    {
        match address {
            ClientAddress::V4(bits) => self.v4.get(&bits),
            ClientAddress::V6(bits) => self.v6.get(&bits),
        }
    }

    /// Counts a request of a client.
    pub fn record(&mut self, address: ClientAddress, ip: &str, visit: Visit)
        ensures
            final(self)@ == old(self)@.insert(
                address,
                credited(known(old(self)@, address), ip@, visit),
            ),
    {
        let previous: Option<ClientRecord> = match address {
            ClientAddress::V4(bits) => self.v4.remove(&bits),
            ClientAddress::V6(bits) => self.v6.remove(&bits),
        };
        assert(previous is Some <==> old(self)@.contains_key(address));
        assert(previous matches Some(client) ==> client@ == old(self)@[address]);
        let client: ClientRecord = match previous {
            Some(client) => ClientRecord {
                ip: client.ip,
                requests: client.requests.wrapping_add(1),
                bytes: client.bytes.wrapping_add(visit.bytes),
                rows: client.rows.wrapping_add(visit.rows),
                total_duration_us: client.total_duration_us.wrapping_add(visit.duration_us),
                last_seen_ns: visit.ended_ns,
            },
            None => ClientRecord {
                ip: ip.to_owned(),
                requests: 1,
                bytes: visit.bytes,
                rows: visit.rows,
                total_duration_us: visit.duration_us,
                last_seen_ns: visit.ended_ns,
            },
        };
        let ghost after = client@;
        match address {
            ClientAddress::V4(bits) => {
                self.v4.insert(bits, client);
            },
            ClientAddress::V6(bits) => {
                self.v6.insert(bits, client);
            },
        }
        assert(self@ =~= old(self)@.insert(address, after));
    }

    /// The clients, those with the most requests first.
    pub fn ranked(&self) -> (r: Vec<ClientAddress>)
        ensures
            r@.no_duplicates(),
            forall|address: ClientAddress|
                #[trigger] r@.contains(address) <==> self@.contains_key(address),
            forall|i: int, j: int|
                0 <= i <= j < r@.len() ==> self@[#[trigger] r@[i]].requests >= self@[
                #[trigger] r@[j]].requests,
    {
        let mut standings: Vec<Standing> = Vec::new();
        for bits in it: self.v4.keys()
            invariant
                it.seq().no_duplicates(),
                it.seq().unref().to_set() == self.v4@.dom(),
                forall|key: u32| #[trigger]
                    self.v4@.contains_key(key) ==> it.seq().unref().contains(key),
                standings@.len() == it.index(),
                forall|i: int|
                    #![trigger standings@[i]]
                    #![trigger it.seq().unref()[i]]
                    0 <= i < it.index() ==> standings@[i].address == ClientAddress::V4(
                        it.seq().unref()[i],
                    ),
                standings_of(standings@, self@),
        {
            assert(it.seq().unref()[it.index()] == *bits);
            assert(it.seq().unref().to_set().contains(*bits));
            if let Some(client) = self.v4.get(bits) {
                standings.push(
                    Standing { address: ClientAddress::V4(*bits), requests: client.requests },
                );
            }
        }
        let ghost first = standings@;
        assert(forall|key: u32| #[trigger]
            self.v4@.contains_key(key) ==> exists|i: int|
                0 <= i < first.len() && (#[trigger] first[i]).address == ClientAddress::V4(key));
        for bits in it: self.v6.keys()
            invariant
                it.seq().no_duplicates(),
                it.seq().unref().to_set() == self.v6@.dom(),
                forall|key: u128| #[trigger]
                    self.v6@.contains_key(key) ==> it.seq().unref().contains(key),
                standings@.len() == first.len() + it.index(),
                forall|i: int| 0 <= i < first.len() ==> standings@[i] == #[trigger] first[i],
                forall|i: int| 0 <= i < first.len() ==> (#[trigger] first[i]).address is V4,
                forall|i: int|
                    0 <= i < it.index() ==> standings@[first.len() + i].address
                        == ClientAddress::V6(#[trigger] it.seq().unref()[i]),
                forall|i: int|
                    first.len() <= i < standings@.len() ==> (#[trigger] standings@[i]).address
                        == ClientAddress::V6(it.seq().unref()[i - first.len()]),
                standings_of(standings@, self@),
        {
            assert(it.seq().unref()[it.index()] == *bits);
            assert(it.seq().unref().to_set().contains(*bits));
            assert forall|i: int| 0 <= i < standings@.len() implies (
            #[trigger] standings@[i]).address != ClientAddress::V6(*bits) by {
                if i < first.len() {
                    assert(first[i].address is V4);
                } else {
                    assert(it.seq()[i - first.len()] != it.seq()[it.index()]);
                }
            }
            if let Some(client) = self.v6.get(bits) {
                standings.push(
                    Standing { address: ClientAddress::V6(*bits), requests: client.requests },
                );
            }
        }
        assert(forall|key: u128| #[trigger]
            self.v6@.contains_key(key) ==> exists|i: int|
                0 <= i < standings@.len() && (#[trigger] standings@[i]).address
                    == ClientAddress::V6(key));
        let sorted: Vec<Standing> = sort(standings.as_slice());
        proof {
            lemma_standings_reordered(standings@, sorted@, self@);
        }
        let mut ranked: Vec<ClientAddress> = Vec::new();
        let mut i: usize = 0;
        while i < sorted.len()
            invariant
                i <= sorted@.len(),
                ranked@.len() == i,
                forall|j: int| 0 <= j < i ==> #[trigger] ranked@[j] == sorted@[j].address,
            decreases sorted@.len() - i,
        {
            ranked.push(sorted[i].address);
            i = i + 1;
        }
        assert forall|address: ClientAddress|
            self@.contains_key(address) implies #[trigger] ranked@.contains(address) by {
            let at = choose|at: int|
                0 <= at < standings@.len() && (#[trigger] standings@[at]).address == address;
            match address {
                ClientAddress::V4(bits) => {
                    assert(self.v4@.contains_key(bits));
                },
                ClientAddress::V6(bits) => {
                    assert(self.v6@.contains_key(bits));
                },
            }
            assert(standings@.contains(standings@[at]));
            assert(sorted@.contains(standings@[at]));
            let place = choose|place: int|
                0 <= place < sorted@.len() && sorted@[place] == standings@[at];
            assert(ranked@[place] == address);
        }
        ranked
    }
}

} // verus!
