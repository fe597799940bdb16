//! Content-addressable storage: an append-only mapping from the address
//! of a header to the header.

use std::collections::HashMap;
use vstd::prelude::*;
use crate::address::Address;
use crate::chain_header::ChainHeader;

verus! {

broadcast use vstd::std_specs::hash::group_hash_axioms;

/// The storage substrate itself failed. This is not "not found".
#[derive(Debug, PartialEq, Eq)]
pub struct StorageFault {
    pub reason: String,
}

impl Clone for StorageFault {
    fn clone(&self) -> (r: Self)
        ensures
            r == *self,
    {
        StorageFault { reason: self.reason.clone() }
    }
}

/// What is stored under `address`, if anything.
pub open spec fn lookup(contents: Map<Address, ChainHeader>, address: Address) -> Option<
    ChainHeader,
> {
    if contents.contains_key(address) {
        Some(contents[address])
    } else {
        None
    }
}

/// The contents after `header` has been added: storage is append-only,
/// so an address that is already taken keeps what it holds.
pub open spec fn stored(contents: Map<Address, ChainHeader>, header: ChainHeader) -> Map<
    Address,
    ChainHeader,
> {
    if contents.contains_key(header.spec_address()) {
        contents
    } else {
        contents.insert(header.spec_address(), header)
    }
}

/// A store of headers keyed by their addresses.
pub trait ContentAddressableStorage {
    /// The headers that the storage holds, by address.
    spec fn headers(&self) -> Map<Address, ChainHeader>;

    /// Whether the substrate is one that never faults.
    spec fn reliable(&self) -> bool;

    /// Look `address` up. `Ok(None)` says that nothing is stored there;
    /// `Err` says that the substrate could not answer.
    fn fetch(&self, address: &Address) -> (r: Result<Option<ChainHeader>, StorageFault>)
        ensures
            r matches Ok(found) ==> found == lookup(self.headers(), *address),
            self.reliable() ==> r is Ok,
    ;

    /// Store `header` under its own address.
    fn add(&mut self, header: &ChainHeader) -> (r: Result<(), StorageFault>)
        ensures
            r is Ok ==> final(self).headers() == stored(old(self).headers(), *header),
            r is Err ==> final(self).headers() == old(self).headers(),
            final(self).reliable() == old(self).reliable(),
            old(self).reliable() ==> r is Ok,
    ;
}

/// Storage held in memory. It can be taken offline, and then faults on
/// every access until it is brought back.
pub struct MemoryStorage {
    records: HashMap<u64, ChainHeader>,
    online: bool,
}

impl MemoryStorage {
    /// An empty storage, online.
    pub fn new() -> (r: MemoryStorage)
        ensures
            r.headers() == Map::<Address, ChainHeader>::empty(),
            r.reliable(),
    {
        let r = MemoryStorage { records: HashMap::new(), online: true };
        proof {
            assert(r.headers() =~= Map::<Address, ChainHeader>::empty());
        }
        r
    }

    /// Bring the storage online or take it offline. What it holds stays.
    pub fn set_online(&mut self, online: bool)
        ensures
            final(self).headers() == old(self).headers(),
            final(self).reliable() == online,
    {
        self.online = online;
    }

    /// The reason that the faults of an offline storage carry.
    pub open spec fn offline_reason() -> Seq<char> {
        "storage is offline"@
    }

    fn offline_fault() -> (r: StorageFault)
        ensures
            r.reason@ == Self::offline_reason(),
    {
        StorageFault { reason: "storage is offline".to_owned() }
    }
}

impl ContentAddressableStorage for MemoryStorage {
    closed spec fn headers(&self) -> Map<Address, ChainHeader> {
        Map::new(
            |a: Address| self.records@.contains_key(a.digest),
            |a: Address| self.records@[a.digest],
        )
    }

    closed spec fn reliable(&self) -> bool {
        self.online
    }

    fn fetch(&self, address: &Address) -> (r: Result<Option<ChainHeader>, StorageFault>)
        ensures
            r is Ok <==> self.reliable(),
            r matches Err(fault) ==> fault.reason@ == Self::offline_reason(),
    {
        if !self.online {
            return Err(Self::offline_fault());
        }
        match self.records.get(&address.digest) {
            Some(header) => Ok(Some(header.clone())),
            None => Ok(None),
        }
    }

    fn add(&mut self, header: &ChainHeader) -> (r: Result<(), StorageFault>)
        ensures
            r is Ok <==> old(self).reliable(),
            r matches Err(fault) ==> fault.reason@ == Self::offline_reason(),
    {
        if !self.online {
            return Err(Self::offline_fault());
        }
        let address = header.address();
        if !self.records.contains_key(&address.digest) {
            self.records.insert(address.digest, header.clone());
            proof {
                assert(self.headers() =~= stored(old(self).headers(), *header));
            }
        }
        Ok(())
    }
}

} // verus!
